//! Where the data directory is.
//!
//! `RYU_DIR` wins, so that a process that is told its directory shares it with
//! the one that told it. After it comes the directory that the pointer file
//! names, and last the default one under the home directory. Every profile but
//! `release` has a directory of its own, told apart by a suffix. The pointer
//! file stands in the configuration directory of the user, or beside the default
//! data directory where there is none.
//!
//! A path is held as its bytes, so that a name that is no UTF-8 stays what it
//! is. The paths are Unix paths, with a slash between names.

use crate::local;
use crate::text;
use vstd::prelude::*;
use vstd::string::*;
use vstd::utf8::*;

verus! {

/// The profile whose directories carry no suffix.
pub const RELEASE_PROFILE: &'static str = "release";

/// What the pointer file holds.
#[derive(Debug)]
pub struct DataPathPointer {
    /// The data directory that the file names.
    pub data_dir: Option<String>,
}

impl Default for DataPathPointer {
    fn default() -> (res: Self)
        ensures
            res.data_dir is None,
    {
        DataPathPointer { data_dir: None }
    }
}

/// The bytes of an optional path.
pub open spec fn path_of(path: Option<Vec<u8>>) -> Option<Seq<u8>> {
    match path {
        Some(p) => Some(p@),
        None => None,
    }
}

/// The bytes of an optional path.
pub open spec fn borrowed_path_of(path: Option<&Vec<u8>>) -> Option<Seq<u8>> {
    match path {
        Some(p) => Some(p@),
        None => None,
    }
}

/// The path `base` with `name` after it. An absolute `name` stands alone, and
/// no separator is added where `base` is empty or ends with one.
pub open spec fn joined(base: Seq<u8>, name: Seq<u8>) -> Seq<u8> {
    if name.len() > 0 && name[0] == 0x2F {
        name
    } else if base.len() == 0 || base.last() == 0x2F {
        base + name
    } else {
        base.push(0x2F) + name
    }
}

/// Puts `name` after `base`.
pub fn join(base: &[u8], name: &str) -> (res: Vec<u8>)
    ensures
        res@ == joined(base@, encode_utf8(name@)),
{
    let tail: &[u8] = name.as_bytes();
    let mut res: Vec<u8> = Vec::new();
    if tail.len() == 0 || tail[0] != 0x2F {
        res.extend_from_slice(base);
        assert(res@ =~= base@);
        if base.len() > 0 && base[base.len() - 1] != 0x2F {
            res.push(0x2F);
        }
    }
    let ghost before = res@;
    res.extend_from_slice(tail);
    assert(res@ =~= before + tail@);
    assert(res@ =~= joined(base@, tail@));
    res
}

/// The suffix of the directories of `profile`, which counts without its
/// surrounding white space: none for a blank or unset profile and for
/// [`RELEASE_PROFILE`], and otherwise a hyphen and the profile.
pub open spec fn profile_suffix(profile: Option<Seq<char>>) -> Seq<char> {
    match profile {
        Some(p) => if text::trimmed(p).len() == 0 || text::trimmed(p) == RELEASE_PROFILE@ {
            Seq::empty()
        } else {
            "-"@ + text::trimmed(p)
        },
        None => Seq::empty(),
    }
}

/// The suffix of the directories of `profile`.
pub fn suffix(profile: Option<&str>) -> (res: String)
    ensures
        res@ == profile_suffix(text::text_of(profile)),
{
    match profile {
        Some(p) => {
            let name: &str = text::trim(p);
            if name.is_empty() || text::same_text(name, RELEASE_PROFILE) {
                String::new()
            } else {
                let mut res: String = "-".to_owned();
                res.append(name);
                res
            }
        },
        None => String::new(),
    }
}

/// The home directory if there is one, and the working directory otherwise.
pub open spec fn home_base(home: Option<Seq<u8>>) -> Seq<u8> {
    match home {
        Some(h) => h,
        None => encode_utf8("."@),
    }
}

fn home_or_here(home: Option<Vec<u8>>) -> (res: Vec<u8>)
    ensures
        res@ == home_base(path_of(home)),
{
    match home {
        Some(h) => h,
        None => ".".as_bytes_vec(),
    }
}

/// The default data directory of `profile`, in the home directory if there is
/// one and in the working directory otherwise.
pub open spec fn default_dir(home: Option<Seq<u8>>, profile: Option<Seq<char>>) -> Seq<u8> {
    joined(home_base(home), encode_utf8(".ryu"@ + profile_suffix(profile)))
}

/// The default data directory of `profile`, given the home directory.
pub fn default_ryu_dir_in(home: Option<Vec<u8>>, profile: Option<&str>) -> (res: Vec<u8>)
    ensures
        res@ == default_dir(path_of(home), text::text_of(profile)),
{
    let mut name: String = ".ryu".to_owned();
    name.append(suffix(profile).as_str());
    join(home_or_here(home).as_slice(), name.as_str())
}

/// `dirs::home_dir`: the home directory of the user, if one is known, by the
/// bytes of its path. Nothing is promised of it: it rests on the environment.
#[verifier::external_body]
fn home_dir() -> (res: Option<Vec<u8>>) {
    dirs::home_dir().map(|p| p.into_os_string().into_encoded_bytes())
}

/// `dirs::config_dir`: the configuration directory of the user, if one is
/// known, by the bytes of its path. Nothing is promised of it: it rests on the
/// environment.
#[verifier::external_body]
fn user_config_dir() -> (res: Option<Vec<u8>>) {
    dirs::config_dir().map(|p| p.into_os_string().into_encoded_bytes())
}

/// The default data directory of `profile`, in whatever the home directory is.
pub fn default_ryu_dir(profile: Option<&str>) -> (res: Vec<u8>)
    ensures
        exists|home: Option<Seq<u8>>| res@ == default_dir(home, text::text_of(profile)),
{
    let home: Option<Vec<u8>> = home_dir();
    let ghost known = path_of(home);
    let res: Vec<u8> = default_ryu_dir_in(home, profile);
    assert(res@ == default_dir(known, text::text_of(profile)));
    res
}

/// The directory of the pointer file: `ryu` and the suffix of `profile`, in
/// `base`.
pub open spec fn config_dir_of(base: Seq<u8>, profile: Option<Seq<char>>) -> Seq<u8> {
    joined(base, encode_utf8("ryu"@ + profile_suffix(profile)))
}

/// The directory of the pointer file, given the configuration directory of the
/// user, or what stands in for it.
pub fn config_dir_in(base: &[u8], profile: Option<&str>) -> (res: Vec<u8>)
    ensures
        res@ == config_dir_of(base@, text::text_of(profile)),
{
    let mut name: String = "ryu".to_owned();
    name.append(suffix(profile).as_str());
    join(base, name.as_str())
}

/// What holds the pointer file's directory: the configuration directory of the
/// user where it is known, and otherwise what holds the default data directory,
/// so that the two stand side by side.
pub open spec fn config_base(known: Option<Seq<u8>>, home: Option<Seq<u8>>) -> Seq<u8> {
    match known {
        Some(dir) => dir,
        None => home_base(home),
    }
}

/// The directory of the pointer file, given the configuration directory and the
/// home directory of the user, as far as they are known.
pub fn config_dir_given(
    known: Option<Vec<u8>>,
    home: Option<Vec<u8>>,
    profile: Option<&str>,
) -> (res: Vec<u8>)
    ensures
        res@ == config_dir_of(config_base(path_of(known), path_of(home)), text::text_of(profile)),
{
    let base: Vec<u8> = match known {
        Some(dir) => dir,
        None => home_or_here(home),
    };
    config_dir_in(base.as_slice(), profile)
}

/// The directory of the pointer file, in whatever the directories of the user
/// are: what [`config_dir_given`] makes of them.
pub fn config_dir(profile: Option<&str>) -> (res: Vec<u8>)
    ensures
        exists|known: Option<Seq<u8>>, home: Option<Seq<u8>>|
            res@ == config_dir_of(
                #[trigger] config_base(known, home),
                text::text_of(profile),
            ),
{
    let known: Option<Vec<u8>> = user_config_dir();
    let home: Option<Vec<u8>> = home_dir();
    let ghost base = config_base(path_of(known), path_of(home));
    let res: Vec<u8> = config_dir_given(known, home, profile);
    assert(res@ == config_dir_of(base, text::text_of(profile)));
    res
}

/// The pointer file in the directory `dir`.
pub open spec fn pointer_in(dir: Seq<u8>) -> Seq<u8> {
    joined(dir, encode_utf8("data-path.json"@))
}

/// The path of the pointer file, given the configuration directory and the home
/// directory of the user, as far as they are known.
pub fn pointer_path_given(
    known: Option<Vec<u8>>,
    home: Option<Vec<u8>>,
    profile: Option<&str>,
) -> (res: Vec<u8>)
    ensures
        res@ == pointer_in(
            config_dir_of(config_base(path_of(known), path_of(home)), text::text_of(profile)),
        ),
{
    let dir: Vec<u8> = config_dir_given(known, home, profile);
    join(dir.as_slice(), "data-path.json")
}

/// The path of the pointer file, in whatever the directories of the user are:
/// what [`pointer_path_given`] makes of them.
pub fn pointer_path(profile: Option<&str>) -> (res: Vec<u8>)
    ensures
        exists|known: Option<Seq<u8>>, home: Option<Seq<u8>>|
            res@ == pointer_in(
                config_dir_of(#[trigger] config_base(known, home), text::text_of(profile)),
            ),
{
    let known: Option<Vec<u8>> = user_config_dir();
    let home: Option<Vec<u8>> = home_dir();
    let ghost base = config_base(path_of(known), path_of(home));
    let res: Vec<u8> = pointer_path_given(known, home, profile);
    assert(res@ == pointer_in(config_dir_of(base, text::text_of(profile))));
    res
}

/// The data directory that the environment or else the pointer file names. An
/// empty name is none.
pub open spec fn named_dir(
    env_dir: Option<Seq<u8>>,
    pointer: Option<Seq<char>>,
) -> Option<Seq<u8>> {
    if env_dir is Some && env_dir->0.len() > 0 {
        env_dir
    } else if pointer is Some && pointer->0.len() > 0 {
        Some(encode_utf8(pointer->0))
    } else {
        None
    }
}

/// The data directory: the one that is named, and the default one otherwise.
pub open spec fn data_dir(
    env_dir: Option<Seq<u8>>,
    pointer: Option<Seq<char>>,
    home: Option<Seq<u8>>,
    profile: Option<Seq<char>>,
) -> Seq<u8> {
    match named_dir(env_dir, pointer) {
        Some(dir) => dir,
        None => default_dir(home, profile),
    }
}

fn named(env_dir: Option<&Vec<u8>>, pointer: &DataPathPointer) -> (res: Option<Vec<u8>>)
    ensures
        path_of(res) == named_dir(borrowed_path_of(env_dir), text::string_of(pointer.data_dir)),
{
    if let Some(dir) = env_dir {
        if dir.len() > 0 {
            return Some(dir.clone());
        }
    }
    if let Some(dir) = &pointer.data_dir {
        if !dir.as_str().is_empty() {
            let bytes: Vec<u8> = dir.as_str().as_bytes_vec();
            return Some(bytes);
        }
    }
    None
}

/// The data directory, given the home directory.
pub fn resolve_in(
    env_dir: Option<&Vec<u8>>,
    pointer: &DataPathPointer,
    home: Option<Vec<u8>>,
    profile: Option<&str>,
) -> (res: Vec<u8>)
    ensures
        res@ == data_dir(
            borrowed_path_of(env_dir),
            text::string_of(pointer.data_dir),
            path_of(home),
            text::text_of(profile),
        ),
{
    match named(env_dir, pointer) {
        Some(dir) => dir,
        None => default_ryu_dir_in(home, profile),
    }
}

/// The data directory, in whatever the home directory is: what `RYU_DIR` holds,
/// else what the pointer file names, else the default.
pub fn resolve(env_dir: Option<&Vec<u8>>, pointer: &DataPathPointer, profile: Option<&str>) -> (res:
    Vec<u8>)
    ensures
        exists|home: Option<Seq<u8>>|
            res@ == data_dir(
                borrowed_path_of(env_dir),
                text::string_of(pointer.data_dir),
                home,
                text::text_of(profile),
            ),
        named_dir(borrowed_path_of(env_dir), text::string_of(pointer.data_dir)) matches Some(dir)
            ==> res@ == dir,
{
    let home: Option<Vec<u8>> = home_dir();
    let ghost known = path_of(home);
    let res: Vec<u8> = resolve_in(env_dir, pointer, home, profile);
    assert(res@ == data_dir(
        borrowed_path_of(env_dir),
        text::string_of(pointer.data_dir),
        known,
        text::text_of(profile),
    ));
    res
}

/// The data directory of this process: resolved on the first call, kept in
/// `cache`, and the same on every later one, whatever has changed by then.
pub fn ryu_dir(
    cache: &mut Option<Vec<u8>>,
    env_dir: Option<&Vec<u8>>,
    pointer: &DataPathPointer,
    profile: Option<&str>,
) -> (res: Vec<u8>)
    ensures
        path_of(*final(cache)) == Some(res@),
        path_of(*old(cache)) matches Some(dir) ==> res@ == dir,
        *old(cache) is None ==> {
            &&& res@.len() > 0
            &&& exists|home: Option<Seq<u8>>|
                res@ == data_dir(
                    borrowed_path_of(env_dir),
                    text::string_of(pointer.data_dir),
                    home,
                    text::text_of(profile),
                )
            &&& named_dir(borrowed_path_of(env_dir), text::string_of(pointer.data_dir)) matches Some(
                dir,
            ) ==> res@ == dir
        },
{
    if let Some(dir) = &*cache {
        return dir.clone();
    }
    let dir: Vec<u8> = resolve(env_dir, pointer, profile);
    proof {
        let home = choose|home: Option<Seq<u8>>|
            dir@ == data_dir(
                borrowed_path_of(env_dir),
                text::string_of(pointer.data_dir),
                home,
                text::text_of(profile),
            );
        law_data_dir_is_not_empty(
            borrowed_path_of(env_dir),
            text::string_of(pointer.data_dir),
            home,
            text::text_of(profile),
        );
    }
    *cache = Some(dir.clone());
    dir
}

proof fn lemma_encode_cons(head: Seq<char>, rest: Seq<char>)
    requires
        head.len() > 0,
        (head[0] as u32) < 0x80,
    ensures
        encode_utf8(head + rest).len() > 0,
        encode_utf8(head + rest)[0] as u32 == head[0] as u32,
{
    let s = head + rest;
    assert(s[0] == head[0]);
    let c = s[0] as u32;
    assert(encode_utf8(s) == encode_scalar(c) + encode_utf8(s.drop_first()));
    assert(has_width_1_encoding(c));
    assert(c < 0x80 ==> (c & 0x7F) as u8 == c) by (bit_vector);
}

/// The data directory is never the empty path.
pub proof fn law_data_dir_is_not_empty(
    env_dir: Option<Seq<u8>>,
    pointer: Option<Seq<char>>,
    home: Option<Seq<u8>>,
    profile: Option<Seq<char>>,
)
    ensures
        data_dir(env_dir, pointer, home, profile).len() > 0,
{
    reveal_strlit(".ryu");
    lemma_encode_cons(".ryu"@, profile_suffix(profile));
    if pointer is Some && pointer->0.len() > 0 {
        encode_utf8_decode_utf8(pointer->0);
        assert(encode_utf8(pointer->0).len() > 0) by {
            if encode_utf8(pointer->0).len() == 0 {
                assert(pointer->0 == decode_utf8(encode_utf8(pointer->0)));
            }
        }
    }
}

/// What `RYU_DIR` names is the data directory, whatever the pointer file, the
/// home directory and the profile are.
pub proof fn law_env_dir_wins(
    env_dir: Seq<u8>,
    pointer: Option<Seq<char>>,
    home: Option<Seq<u8>>,
    profile: Option<Seq<char>>,
)
    requires
        env_dir.len() > 0,
    ensures
        data_dir(Some(env_dir), pointer, home, profile) == env_dir,
{
}

/// Two profiles share a default data directory only when they share a suffix.
pub proof fn law_suffix_tells_profiles_apart(
    home: Option<Seq<u8>>,
    profile: Option<Seq<char>>,
    other: Option<Seq<char>>,
)
    requires
        default_dir(home, profile) == default_dir(home, other),
    ensures
        profile_suffix(profile) == profile_suffix(other),
{
    reveal_strlit(".ryu");
    let dot = ".ryu"@;
    lemma_encode_cons(dot, profile_suffix(profile));
    lemma_encode_cons(dot, profile_suffix(other));
    let base = home_base(home);
    let before = if base.len() == 0 || base.last() == 0x2F {
        base
    } else {
        base.push(0x2F)
    };
    let a = encode_utf8(dot + profile_suffix(profile));
    let b = encode_utf8(dot + profile_suffix(other));
    assert(before + a == before + b);
    assert((before + a).skip(before.len() as int) =~= a);
    assert((before + b).skip(before.len() as int) =~= b);
    text::lemma_same_bytes(dot + profile_suffix(profile), dot + profile_suffix(other));
    assert((dot + profile_suffix(profile)).skip(dot.len() as int) =~= profile_suffix(profile));
    assert((dot + profile_suffix(other)).skip(dot.len() as int) =~= profile_suffix(other));
}

/// White space around a profile does not count.
pub proof fn law_profile_is_trimmed(profile: Seq<char>)
    ensures
        profile_suffix(Some(profile)) == profile_suffix(Some(text::trimmed(profile))),
{
    text::lemma_trimmed_once(profile);
}

/// Where no configuration directory is known, the pointer file and its
/// directory stand outside the default data directory, which the file may
/// replace.
pub proof fn law_pointer_stands_outside_the_default_dir(
    home: Option<Seq<u8>>,
    profile: Option<Seq<char>>,
)
    ensures
        !local::within(
            config_dir_of(config_base(None, home), profile),
            default_dir(home, profile),
        ),
        !local::within(
            pointer_in(config_dir_of(config_base(None, home), profile)),
            default_dir(home, profile),
        ),
{
    reveal_strlit("ryu");
    reveal_strlit(".ryu");
    reveal_strlit("data-path.json");
    let base = home_base(home);
    let dir = config_dir_of(base, profile);
    let first = lemma_first_name(base, "ryu"@ + profile_suffix(profile));
    let other = lemma_first_name(base, ".ryu"@ + profile_suffix(profile));
    assert(first[0] == 'r' && other[0] == '.');
    text::lemma_same_bytes(first, other);
    lemma_file_name("data-path.json"@);
    local::law_join_adds_one_name(dir, encode_utf8("data-path.json"@));
    let n = local::names(base).len() as int;
    assert(local::names(dir)[n] == encode_utf8(first));
    assert(local::names(pointer_in(dir))[n] == encode_utf8(first));
    assert(local::names(default_dir(home, profile))[n] == encode_utf8(other));
}

/// What stands in `name` before its first slash is the next name after those of
/// `base`, once `name` is put after `base`.
proof fn lemma_first_name(base: Seq<u8>, name: Seq<char>) -> (first: Seq<char>)
    requires
        name.len() > 1,
        name[0] != '/',
        name[1] != '/',
    ensures
        first.len() > 1,
        first.is_prefix_of(name),
        local::names(joined(base, encode_utf8(name))).len() > local::names(base).len(),
        local::names(joined(base, encode_utf8(name)))[local::names(base).len() as int]
            == encode_utf8(first),
{
    let k = lemma_first_slash(name);
    let first = name.take(k);
    if k < 2 {
        assert(name[k] == '/');
    }
    lemma_file_name(first);
    local::law_join_adds_one_name(base, encode_utf8(first));
    if k < name.len() {
        let rest = name.skip(k + 1);
        let slash = seq!['/'];
        assert(name =~= first + (slash + rest));
        text::lemma_encode_both(first, slash + rest);
        text::lemma_encode_both(slash, rest);
        is_ascii_chars_encode_utf8(slash);
        assert(encode_utf8(slash) =~= seq![0x2Fu8]);
        let front = joined(base, encode_utf8(first));
        assert(encode_utf8(first).contains(encode_utf8(first)[0]));
        assert(joined(base, encode_utf8(name)) =~= front.push(0x2F) + encode_utf8(rest));
        local::lemma_names_grow(front, encode_utf8(rest));
        assert(local::names(front)[local::names(base).len() as int] == encode_utf8(first));
    } else {
        assert(first =~= name);
    }
    first
}

proof fn lemma_first_slash(s: Seq<char>) -> (k: int)
    ensures
        0 <= k <= s.len(),
        k < s.len() ==> s[k] == '/',
        !s.take(k).contains('/'),
    decreases s.len(),
{
    if s.len() == 0 || s[0] == '/' {
        0
    } else {
        let k = lemma_first_slash(s.drop_first());
        let before = s.drop_first().take(k);
        let taken = s.take(k + 1);
        assert forall|i: int| 0 <= i < taken.len() implies taken[i] != '/' by {
            if i > 0 {
                assert(before[i - 1] == s[i]);
                assert(before.contains(before[i - 1]));
            }
        }
        k + 1
    }
}

proof fn lemma_file_name(name: Seq<char>)
    requires
        name.len() > 1,
        !name.contains('/'),
    ensures
        encode_utf8(name).len() > 0,
        !encode_utf8(name).contains(0x2F),
        encode_utf8(name) != local::here(),
{
    text::lemma_encoded_slash(name);
    encode_utf8_decode_utf8(name);
    reveal_strlit(".");
    is_ascii_chars_encode_utf8("."@);
    assert(encode_utf8("."@) =~= local::here());
    text::lemma_same_bytes(name, "."@);
    if encode_utf8(name).len() == 0 {
        assert(name == decode_utf8(encode_utf8(name)));
    }
}

/// Putting a relative name after a folder keeps both as they are, with one slash
/// at most between them; an absolute name stands alone.
pub proof fn law_join_keeps_both(base: Seq<u8>, name: Seq<u8>)
    ensures
        local::rooted(name) ==> joined(base, name) == name,
        !local::rooted(name) ==> {
            &&& base.is_prefix_of(joined(base, name))
            &&& name.is_suffix_of(joined(base, name))
            &&& joined(base, name).len() <= base.len() + 1 + name.len()
            &&& joined(base, name).len() == base.len() + 1 + name.len() ==> joined(base, name)[
            base.len() as int] == 0x2F
            &&& joined(base, name).len() == base.len() + name.len() <==> base.len() == 0
                || base.last() == 0x2F
        },
{
}

/// A profile that is neither blank nor `release` is in the suffix in full, after
/// a hyphen; a blank one, `release` and none have no suffix.
pub proof fn law_suffix_names_the_profile(profile: Seq<char>)
    ensures
        profile_suffix(None).len() == 0,
        text::is_blank(profile) ==> profile_suffix(Some(profile)).len() == 0,
        text::trimmed(profile) == "release"@ ==> profile_suffix(Some(profile)).len() == 0,
        !text::is_blank(profile) && text::trimmed(profile) != "release"@ ==> {
            &&& profile_suffix(Some(profile)).len() == text::trimmed(profile).len() + 1
            &&& profile_suffix(Some(profile))[0] == '-'
            &&& profile_suffix(Some(profile)).skip(1) == text::trimmed(profile)
        },
{
    text::law_blank_counts_as_none(profile);
    reveal_strlit("-");
    assert(("-"@ + text::trimmed(profile)).skip(1) =~= text::trimmed(profile));
}

/// Without `RYU_DIR`, or with an empty one, the directory that the pointer file
/// names is the data directory, as it is written there.
pub proof fn law_pointer_comes_next(
    env_dir: Option<Seq<u8>>,
    pointer: Seq<char>,
    home: Option<Seq<u8>>,
    profile: Option<Seq<char>>,
)
    requires
        env_dir is None || env_dir->0.len() == 0,
        pointer.len() > 0,
    ensures
        data_dir(env_dir, Some(pointer), home, profile) == encode_utf8(pointer),
{
}

/// With neither, the data directory is the one of the profile in the home
/// directory, or in the working directory where there is no home.
pub proof fn law_default_dir_comes_last(
    env_dir: Option<Seq<u8>>,
    pointer: Option<Seq<char>>,
    home: Option<Seq<u8>>,
    profile: Option<Seq<char>>,
)
    requires
        env_dir is None || env_dir->0.len() == 0,
        pointer is None || pointer->0.len() == 0,
        !profile_suffix(profile).contains('/'),
    ensures
        home matches Some(h) ==> local::names(data_dir(env_dir, pointer, home, profile))
            == local::names(h).push(encode_utf8(".ryu"@ + profile_suffix(profile))),
        home matches Some(h) ==> local::within(data_dir(env_dir, pointer, home, profile), h),
        home is None ==> local::names(data_dir(env_dir, pointer, home, profile)) == seq![
            encode_utf8("."@),
            encode_utf8(".ryu"@ + profile_suffix(profile)),
        ],
{
    reveal_strlit(".ryu");
    let name = ".ryu"@ + profile_suffix(profile);
    lemma_file_name(name);
    local::law_join_adds_one_name(home_base(home), encode_utf8(name));
    if home is None {
        reveal_strlit(".");
        let dot = encode_utf8("."@);
        is_ascii_chars_encode_utf8("."@);
        assert(dot =~= local::here());
        local::law_slashes_add_no_names(dot);
        local::law_join_adds_one_name(Seq::empty(), dot);
        assert(joined(Seq::empty(), dot) =~= dot);
        assert(local::names(dot) =~= seq![dot]);
    }
}

/// The pointer file is `data-path.json` in the directory of the profile, in the
/// configuration directory where this is known, and in the home directory
/// otherwise.
pub proof fn law_pointer_stands_in_the_config_dir(
    known: Option<Seq<u8>>,
    home: Option<Seq<u8>>,
    profile: Option<Seq<char>>,
)
    requires
        !profile_suffix(profile).contains('/'),
    ensures
        ({
            let pointer = pointer_in(config_dir_of(config_base(known, home), profile));
            let base = match known {
                Some(dir) => dir,
                None => match home {
                    Some(h) => h,
                    None => encode_utf8("."@),
                },
            };
            &&& local::within(pointer, base)
            &&& local::names(pointer) == local::names(base).push(
                encode_utf8("ryu"@ + profile_suffix(profile)),
            ).push(encode_utf8("data-path.json"@))
        }),
{
    reveal_strlit("ryu");
    reveal_strlit("data-path.json");
    let base = config_base(known, home);
    let dir = config_dir_of(base, profile);
    lemma_file_name("ryu"@ + profile_suffix(profile));
    lemma_file_name("data-path.json"@);
    local::law_join_adds_one_name(base, encode_utf8("ryu"@ + profile_suffix(profile)));
    local::law_join_adds_one_name(dir, encode_utf8("data-path.json"@));
    assert(local::within(pointer_in(dir), dir));
}

/// Whatever the profile, the default data directory and the directory of the
/// pointer file begin with the directory they are in, and end with their name
/// and the whole suffix, with one slash at most between.
pub proof fn law_directories_end_with_the_suffix(
    known: Option<Seq<u8>>,
    home: Option<Seq<u8>>,
    profile: Option<Seq<char>>,
)
    ensures
        ({
            let here = match home {
                Some(h) => h,
                None => encode_utf8("."@),
            };
            let base = match known {
                Some(dir) => dir,
                None => here,
            };
            let data = default_dir(home, profile);
            let config = config_dir_of(config_base(known, home), profile);
            let data_name = encode_utf8(".ryu"@ + profile_suffix(profile));
            let config_name = encode_utf8("ryu"@ + profile_suffix(profile));
            &&& here.is_prefix_of(data)
            &&& data_name.is_suffix_of(data)
            &&& data.len() <= here.len() + 1 + data_name.len()
            &&& base.is_prefix_of(config)
            &&& config_name.is_suffix_of(config)
            &&& config.len() <= base.len() + 1 + config_name.len()
            &&& pointer_in(config) == config + encode_utf8("/data-path.json"@) || (config.len() > 0
                && config.last() == 0x2F && pointer_in(config) == config + encode_utf8(
                "data-path.json"@,
            ))
        }),
{
    reveal_strlit(".ryu");
    reveal_strlit("ryu");
    reveal_strlit("data-path.json");
    reveal_strlit("/data-path.json");
    let data_name = encode_utf8(".ryu"@ + profile_suffix(profile));
    let config_name = encode_utf8("ryu"@ + profile_suffix(profile));
    lemma_encode_cons(".ryu"@, profile_suffix(profile));
    lemma_encode_cons("ryu"@, profile_suffix(profile));
    law_join_keeps_both(home_base(home), data_name);
    law_join_keeps_both(config_base(known, home), config_name);
    let config = config_dir_of(config_base(known, home), profile);
    let file = encode_utf8("data-path.json"@);
    is_ascii_chars_encode_utf8("data-path.json"@);
    is_ascii_chars_encode_utf8("/data-path.json"@);
    assert(encode_utf8("/data-path.json"@) =~= seq![0x2Fu8] + file) by {
        text::lemma_encode_both(seq!['/'], "data-path.json"@);
        is_ascii_chars_encode_utf8(seq!['/']);
        assert("/data-path.json"@ =~= seq!['/'] + "data-path.json"@);
        assert(encode_utf8(seq!['/']) =~= seq![0x2Fu8]);
    }
    assert(config.push(0x2F) + file =~= config + encode_utf8("/data-path.json"@));
}

} // verus!
