//! Which local files may be ingested.
//!
//! Only videos in the media folders of the user may, so that nobody reads other
//! files through an ingest. Paths are compared by their names, as they stand:
//! whoever looks a file up has its path and the folders resolved first, so that
//! no link and no `..` is left in them.
//!
//! The paths are Unix paths: a slash stands between names, and a colon between
//! the folders of a list.

use crate::paths;
use crate::text;
use vstd::prelude::*;
use vstd::string::*;
use vstd::utf8::*;

verus! {

/// Whether `path` starts at the root.
pub open spec fn rooted(path: Seq<u8>) -> bool {
    path.len() > 0 && path[0] == 0x2F
}

/// The name that stands for the folder it is in.
pub open spec fn here() -> Seq<u8> {
    seq![0x2E]
}

/// Those of `parts`, which stand between the slashes of a path, that name
/// something: not the empty ones, and a single dot only in front.
pub open spec fn named(parts: Seq<Seq<u8>>) -> Seq<Seq<u8>>
    decreases parts.len(),
{
    if parts.len() == 0 {
        Seq::empty()
    } else if parts.last().len() == 0 || (parts.len() > 1 && parts.last() == here()) {
        named(parts.drop_last())
    } else {
        named(parts.drop_last()).push(parts.last())
    }
}

/// The names in `path`, from its start on.
pub open spec fn names(path: Seq<u8>) -> Seq<Seq<u8>> {
    named(text::split(path, 0x2F))
}

fn names_of(path: &[u8]) -> (res: Vec<Vec<u8>>)
    ensures
        text::bytes_of(res@) == names(path@),
{
    let parts: Vec<Vec<u8>> = text::split_bytes(path, 0x2F);
    let ghost all = text::bytes_of(parts@);
    let mut res: Vec<Vec<u8>> = Vec::new();
    let n: usize = parts.len();
    assert(text::bytes_of(res@) =~= named(all.take(0)));
    for i in 0..n
        invariant
            n == parts@.len(),
            all == text::bytes_of(parts@),
            text::bytes_of(res@) == named(all.take(i as int)),
    {
        let ghost before = text::bytes_of(res@);
        let part: &Vec<u8> = &parts[i];
        assert(all.take(i + 1).drop_last() =~= all.take(i as int));
        assert(all.take(i + 1).last() == part@);
        let dot: bool = part.len() == 1 && part[0] == 0x2E;
        assert(dot == (part@ =~= here()));
        if part.len() > 0 && (i == 0 || !dot) {
            res.push(part.clone());
            assert(text::bytes_of(res@) =~= before.push(part@));
        }
    }
    assert(all.take(n as int) =~= all);
    res
}

/// Whether `path` is `base` or lies in it. Both start at the root or neither
/// does, so an empty `base`, to which no folder is resolved, holds no absolute
/// path. Whole names are compared, so that a name which begins like another is
/// not taken for it.
pub open spec fn within(path: Seq<u8>, base: Seq<u8>) -> bool {
    &&& rooted(path) == rooted(base)
    &&& names(base).is_prefix_of(names(path))
}

fn starts_at_root(path: &[u8]) -> (res: bool)
    ensures
        res == rooted(path@),
{
    path.len() > 0 && path[0] == 0x2F
}

fn is_within(path: &[u8], base: &[u8]) -> (res: bool)
    ensures
        res == within(path@, base@),
{
    if starts_at_root(path) != starts_at_root(base) {
        return false;
    }
    let inner: Vec<Vec<u8>> = names_of(path);
    let outer: Vec<Vec<u8>> = names_of(base);
    if inner.len() < outer.len() {
        return false;
    }
    let n: usize = outer.len();
    for i in 0..n
        invariant
            n == outer@.len() <= inner@.len(),
            text::bytes_of(inner@) == names(path@),
            text::bytes_of(outer@) == names(base@),
            forall|j: int| 0 <= j < i ==> names(path@)[j] == names(base@)[j],
    {
        if !text::same_bytes(inner[i].as_slice(), outer[i].as_slice()) {
            assert(names(path@)[i as int] != names(base@)[i as int]);
            return false;
        }
        assert(names(path@)[i as int] == names(base@)[i as int]);
    }
    true
}

/// Whether `path` lies in one of `bases`.
pub open spec fn allowed(path: Seq<u8>, bases: Seq<Seq<u8>>) -> bool {
    exists|i: int| 0 <= i < bases.len() && #[trigger] within(path, bases[i])
}

/// Whether the file at `canonical` lies in one of the allowed folders, `bases`.
pub fn local_ingest_allowed(canonical: &Vec<u8>, bases: &Vec<Vec<u8>>) -> (res: bool)
    ensures
        res == allowed(canonical@, text::bytes_of(bases@)),
{
    let n: usize = bases.len();
    for i in 0..n
        invariant
            n == bases@.len(),
            forall|j: int| 0 <= j < i ==> !within(canonical@, #[trigger] text::bytes_of(bases@)[j]),
    {
        if is_within(canonical.as_slice(), bases[i].as_slice()) {
            assert(within(canonical@, text::bytes_of(bases@)[i as int]));
            return true;
        }
    }
    false
}

/// The media folders in the home directory `home`.
pub open spec fn media_folders(home: Option<Seq<u8>>) -> Seq<Seq<u8>> {
    match home {
        Some(h) => seq![
            paths::joined(h, encode_utf8("Movies"@)),
            paths::joined(h, encode_utf8("Downloads"@)),
            paths::joined(h, encode_utf8("Desktop"@)),
        ],
        None => Seq::empty(),
    }
}

/// The folders that `extra` names, with colons between them.
pub open spec fn extra_folders(extra: Option<Seq<u8>>) -> Seq<Seq<u8>> {
    match extra {
        Some(dirs) => text::split(dirs, 0x3A),
        None => Seq::empty(),
    }
}

/// The folders that files may be ingested from: the media folders in the home
/// directory `home`, and those that `RYU_CLIPS_ALLOWED_DIRS` names, which is
/// `extra`.
pub fn allowed_bases(home: Option<&Vec<u8>>, extra: Option<&Vec<u8>>) -> (res: Vec<Vec<u8>>)
    ensures
        text::bytes_of(res@) == media_folders(paths::borrowed_path_of(home)) + extra_folders(
            paths::borrowed_path_of(extra),
        ),
{
    let mut res: Vec<Vec<u8>> = Vec::new();
    if let Some(h) = home {
        res.push(paths::join(h.as_slice(), "Movies"));
        res.push(paths::join(h.as_slice(), "Downloads"));
        res.push(paths::join(h.as_slice(), "Desktop"));
    }
    assert(text::bytes_of(res@) =~= media_folders(paths::borrowed_path_of(home)));
    let ghost media = text::bytes_of(res@);
    if let Some(dirs) = extra {
        let mut named: Vec<Vec<u8>> = text::split_bytes(dirs.as_slice(), 0x3A);
        let ghost folders = text::bytes_of(named@);
        res.append(&mut named);
        assert(text::bytes_of(res@) =~= media + folders);
    } else {
        assert(text::bytes_of(res@) =~= media + Seq::<Seq<u8>>::empty());
    }
    res
}

/// `b` in lower case, if it is an ASCII letter.
pub open spec fn lower(b: u8) -> u8 {
    if 0x41 <= b <= 0x5A {
        (b + 0x20) as u8
    } else {
        b
    }
}

/// Whether the extension of `name`, which is what follows its last dot, is
/// `ext` but for the case of ASCII letters. A dot in front of a name starts no
/// extension.
pub open spec fn has_extension(name: Seq<u8>, ext: Seq<u8>) -> bool {
    let dot = name.len() - ext.len() - 1;
    &&& dot > 0
    &&& name[dot] == 0x2E
    &&& name.skip(dot + 1).map_values(|b: u8| lower(b)) == ext
}

fn extension_is(name: &[u8], ext: &str) -> (res: bool)
    ensures
        res == has_extension(name@, encode_utf8(ext@)),
{
    let want: &[u8] = ext.as_bytes();
    let n: usize = want.len();
    let len: usize = name.len();
    if len < 2 || len - 2 < n {
        return false;
    }
    let dot: usize = len - n - 1;
    if name[dot] != 0x2E {
        return false;
    }
    let ghost tail = name@.skip(dot + 1).map_values(|b: u8| lower(b));
    for i in 0..n
        invariant
            n == want@.len(),
            dot + 1 + n == len == name@.len(),
            tail == name@.skip(dot + 1).map_values(|b: u8| lower(b)),
            want@ == encode_utf8(ext@),
            dot > 0,
            forall|j: int| 0 <= j < i ==> tail[j] == want@[j],
    {
        let b: u8 = name[dot + 1 + i];
        assert(tail[i as int] == lower(b));
        let small: u8 = if 0x41 <= b && b <= 0x5A {
            b + 0x20
        } else {
            b
        };
        if small != want[i] {
            assert(tail != want@);
            return false;
        }
    }
    assert(tail =~= want@);
    true
}

/// Whether the file at `path` is named like a video.
pub open spec fn is_video(path: Seq<u8>) -> bool {
    &&& names(path).len() > 0
    &&& {
        let name = names(path).last();
        ||| has_extension(name, encode_utf8("mp4"@))
        ||| has_extension(name, encode_utf8("mov"@))
        ||| has_extension(name, encode_utf8("mkv"@))
        ||| has_extension(name, encode_utf8("webm"@))
    }
}

/// Whether the file at `path` is named like a video of a kind that can be
/// ingested.
pub fn video_extension_ok(path: &Vec<u8>) -> (res: bool)
    ensures
        res == is_video(path@),
{
    let parts: Vec<Vec<u8>> = names_of(path.as_slice());
    if parts.len() == 0 {
        return false;
    }
    let name: &[u8] = parts[parts.len() - 1].as_slice();
    assert(name@ == names(path@).last());
    extension_is(name, "mp4") || extension_is(name, "mov") || extension_is(name, "mkv")
        || extension_is(name, "webm")
}

/// More folders never take a file away from those that may be ingested.
pub proof fn law_more_folders_allow_more(path: Seq<u8>, bases: Seq<Seq<u8>>, more: Seq<Seq<u8>>)
    requires
        allowed(path, bases),
    ensures
        allowed(path, bases + more),
        allowed(path, more + bases),
{
    let i = choose|i: int| 0 <= i < bases.len() && #[trigger] within(path, bases[i]);
    assert((bases + more)[i] == bases[i]);
    assert((more + bases)[more.len() + i] == bases[i]);
    assert(within(path, (bases + more)[i]));
    assert(within(path, (more + bases)[more.len() + i]));
}

/// An allowed folder is allowed with all that lies in it.
pub proof fn law_folder_is_allowed_whole(path: Seq<u8>, folder: Seq<u8>, bases: Seq<Seq<u8>>)
    requires
        allowed(folder, bases),
        within(path, folder),
    ensures
        allowed(path, bases),
{
    let i = choose|i: int| 0 <= i < bases.len() && #[trigger] within(folder, bases[i]);
    assert(within(path, bases[i]));
}

/// Without a folder no file may be ingested.
pub proof fn law_no_folder_allows_nothing(path: Seq<u8>)
    ensures
        !allowed(path, Seq::empty()),
{
}

/// Putting a name after a folder leads into the folder and adds that name, or
/// nothing where it stands for the folder itself.
pub proof fn law_join_adds_one_name(base: Seq<u8>, name: Seq<u8>)
    requires
        name.len() > 0,
        !name.contains(0x2F),
    ensures
        names(paths::joined(base, name)) == (if base.len() > 0 && name == here() {
            names(base)
        } else {
            names(base).push(name)
        }),
        within(paths::joined(base, name), base),
{
    let sep: u8 = 0x2F;
    let path = paths::joined(base, name);
    assert(name.contains(name[0]));
    if base.len() == 0 {
        assert(path =~= name);
        text::lemma_split_whole(name, sep);
        lemma_named_push(Seq::empty(), base);
        lemma_named_push(Seq::empty(), name);
        assert(seq![base] =~= Seq::empty().push(base));
        assert(seq![name] =~= Seq::empty().push(name));
    } else if base.last() == sep {
        let front = base.drop_last();
        assert(path =~= front.push(sep) + name);
        assert(base =~= front.push(sep) + Seq::<u8>::empty());
        text::lemma_split_last(front, sep, name);
        text::lemma_split_last(front, sep, Seq::empty());
        text::lemma_split_some(front, sep);
        lemma_named_push(text::split(front, sep), name);
        lemma_named_push(text::split(front, sep), Seq::empty());
        assert(path[0] == base[0]);
    } else {
        text::lemma_split_last(base, sep, name);
        text::lemma_split_some(base, sep);
        lemma_named_push(text::split(base, sep), name);
        assert(path[0] == base[0]);
    }
}

proof fn lemma_named_push(parts: Seq<Seq<u8>>, part: Seq<u8>)
    ensures
        named(parts.push(part)) == (if part.len() == 0 || (parts.len() > 0 && part == here()) {
            named(parts)
        } else {
            named(parts).push(part)
        }),
{
    assert(parts.push(part).drop_last() =~= parts);
}

/// Whatever follows a slash after a path adds to the names of the path.
pub proof fn lemma_names_grow(front: Seq<u8>, rest: Seq<u8>)
    ensures
        names(front).is_prefix_of(names(front.push(0x2F) + rest)),
{
    text::lemma_split_both(front, 0x2F, rest);
    text::lemma_split_some(front, 0x2F);
    lemma_named_grow(text::split(front, 0x2F), text::split(rest, 0x2F));
}

proof fn lemma_named_grow(parts: Seq<Seq<u8>>, more: Seq<Seq<u8>>)
    ensures
        named(parts).is_prefix_of(named(parts + more)),
    decreases more.len(),
{
    if more.len() == 0 {
        assert(parts + more =~= parts);
    } else {
        lemma_named_grow(parts, more.drop_last());
        assert((parts + more).drop_last() =~= parts + more.drop_last());
        assert(parts + more =~= (parts + more.drop_last()).push(more.last()));
        lemma_named_push(parts + more.drop_last(), more.last());
    }
}

/// Two folders side by side hold nothing of each other, however alike their
/// names begin.
pub proof fn law_siblings_are_apart(base: Seq<u8>, name: Seq<u8>, other: Seq<u8>)
    requires
        name.len() > 0,
        !name.contains(0x2F),
        other.len() > 0,
        !other.contains(0x2F),
        base.len() == 0 || other != here(),
        name != other,
    ensures
        !within(paths::joined(base, name), paths::joined(base, other)),
{
    law_join_adds_one_name(base, name);
    law_join_adds_one_name(base, other);
    let n = names(base).len() as int;
    assert(names(paths::joined(base, other))[n] == other);
    if base.len() == 0 || name != here() {
        assert(names(paths::joined(base, name))[n] == name);
    }
}

/// A path starts at the root exactly when it starts with a slash.
pub proof fn law_root_is_a_slash(b: u8, rest: Seq<u8>)
    ensures
        !rooted(Seq::empty()),
        rooted(seq![b] + rest) <==> b == 0x2F,
{
}

/// The empty path has no names, and a slash at the end adds none.
pub proof fn law_slashes_add_no_names(base: Seq<u8>)
    ensures
        names(Seq::empty()).len() == 0,
        names(base.push(0x2F)) == names(base),
{
    let none = Seq::<u8>::empty();
    text::lemma_split_both(base, 0x2F, none);
    assert(base.push(0x2F) + none =~= base.push(0x2F));
    assert(text::split(base, 0x2F) + seq![none] =~= text::split(base, 0x2F).push(none));
    lemma_named_push(text::split(base, 0x2F), none);
    assert(seq![none] =~= Seq::<Seq<u8>>::empty().push(none));
    lemma_named_push(Seq::empty(), none);
}

/// What lies in a folder has all the names of the folder in front, and starts at
/// the root when the folder does.
pub proof fn law_what_lies_in_a_folder_goes_through_it(path: Seq<u8>, base: Seq<u8>)
    requires
        within(path, base),
    ensures
        rooted(path) <==> rooted(base),
        names(path) == names(base) + names(path).skip(names(base).len() as int),
{
    assert(names(path) =~= names(base) + names(path).skip(names(base).len() as int));
}

/// And all that goes through a folder lies in it, however deep.
pub proof fn law_what_goes_through_a_folder_lies_in_it(
    path: Seq<u8>,
    base: Seq<u8>,
    more: Seq<Seq<u8>>,
)
    requires
        rooted(path) <==> rooted(base),
        names(path) == names(base) + more,
    ensures
        within(path, base),
{
}

/// A file may be ingested from several folders exactly when one of them allows
/// it, and one folder allows exactly what lies in it.
pub proof fn law_each_folder_decides_for_itself(
    path: Seq<u8>,
    base: Seq<u8>,
    bases: Seq<Seq<u8>>,
    more: Seq<Seq<u8>>,
)
    ensures
        allowed(path, seq![base]) <==> within(path, base),
        allowed(path, bases + more) <==> allowed(path, bases) || allowed(path, more),
{
    assert(seq![base][0] == base);
    if within(path, base) {
        assert(within(path, seq![base][0]));
    }
    if allowed(path, bases) {
        law_more_folders_allow_more(path, bases, more);
    }
    if allowed(path, more) {
        law_more_folders_allow_more(path, more, bases);
    }
    if allowed(path, bases + more) {
        let i = choose|i: int|
            0 <= i < (bases + more).len() && #[trigger] within(path, (bases + more)[i]);
        if i < bases.len() {
            assert(within(path, bases[i]));
        } else {
            assert(within(path, more[i - bases.len()]));
        }
    }
}

/// The media folders stand in the home directory under their names, and without
/// a home there are none.
pub proof fn law_media_folders_stand_in_the_home(home: Seq<u8>)
    ensures
        media_folders(None).len() == 0,
        media_folders(Some(home)).len() == 3,
        names(media_folders(Some(home))[0]) == names(home).push(encode_utf8("Movies"@)),
        names(media_folders(Some(home))[1]) == names(home).push(encode_utf8("Downloads"@)),
        names(media_folders(Some(home))[2]) == names(home).push(encode_utf8("Desktop"@)),
        forall|i: int| 0 <= i < 3 ==> within(#[trigger] media_folders(Some(home))[i], home),
{
    reveal_strlit("Movies");
    reveal_strlit("Downloads");
    reveal_strlit("Desktop");
    is_ascii_chars_encode_utf8("Movies"@);
    is_ascii_chars_encode_utf8("Downloads"@);
    is_ascii_chars_encode_utf8("Desktop"@);
    text::lemma_encoded_slash("Movies"@);
    text::lemma_encoded_slash("Downloads"@);
    text::lemma_encoded_slash("Desktop"@);
    law_join_adds_one_name(home, encode_utf8("Movies"@));
    law_join_adds_one_name(home, encode_utf8("Downloads"@));
    law_join_adds_one_name(home, encode_utf8("Desktop"@));
}

/// Extra folders are those between the colons, each as it is written.
pub proof fn law_extra_folders_stand_between_colons(folder: Seq<u8>, rest: Seq<u8>)
    requires
        !folder.contains(0x3A),
    ensures
        extra_folders(None).len() == 0,
        extra_folders(Some(folder)) == seq![folder],
        extra_folders(Some(folder.push(0x3A) + rest)) == seq![folder] + extra_folders(Some(rest)),
{
    text::lemma_split_whole(folder, 0x3A);
    text::lemma_split_first(folder, 0x3A, rest);
}

/// Only capital ASCII letters are changed, into their small ones.
pub proof fn law_capitals_become_small(b: u8)
    ensures
        0x41 <= b <= 0x5A ==> lower(b) == b + 0x20,
        !(0x41 <= b <= 0x5A) ==> lower(b) == b,
{
}

/// The extension of a name is what follows its last dot, whatever stands before
/// that dot, as long as something does.
pub proof fn law_extension_follows_the_last_dot(stem: Seq<u8>, given: Seq<u8>, ext: Seq<u8>)
    requires
        stem.len() > 0,
        !given.contains(0x2E),
        !ext.contains(0x2E),
    ensures
        has_extension(stem.push(0x2E) + given, ext) <==> given.map_values(|b: u8| lower(b)) == ext,
{
    let name = stem.push(0x2E) + given;
    let dot = name.len() - ext.len() - 1;
    let small = given.map_values(|b: u8| lower(b));
    if given.len() == ext.len() {
        assert(name.skip(dot + 1) =~= given);
    } else if given.len() > ext.len() {
        assert(given.contains(given[dot - stem.len() - 1]));
    } else if dot > 0 {
        let tail = name.skip(dot + 1).map_values(|b: u8| lower(b));
        let k = stem.len() - dot - 1;
        assert(tail[k] == 0x2E);
        if tail == ext {
            assert(ext.contains(ext[k]));
        }
    }
}

/// A name without a dot after its first character has no extension.
pub proof fn law_no_dot_no_extension(name: Seq<u8>, ext: Seq<u8>)
    requires
        forall|i: int| 0 < i < name.len() ==> name[i] != 0x2E,
    ensures
        !has_extension(name, ext),
{
}

/// A file is taken for a video by the last dot of its own name: what follows it
/// is `mp4`, `mov`, `mkv` or `webm`, in small letters or capitals.
pub proof fn law_videos_are_told_by_their_extension(
    folder: Seq<u8>,
    stem: Seq<u8>,
    given: Seq<u8>,
)
    requires
        stem.len() > 0,
        !stem.contains(0x2F),
        !given.contains(0x2F),
        !given.contains(0x2E),
        stem.push(0x2E) + given != here(),
    ensures
        ({
            let small = given.map_values(|b: u8| lower(b));
            is_video(paths::joined(folder, stem.push(0x2E) + given)) <==> {
                ||| small == encode_utf8("mp4"@)
                ||| small == encode_utf8("mov"@)
                ||| small == encode_utf8("mkv"@)
                ||| small == encode_utf8("webm"@)
            }
        }),
{
    let name = stem.push(0x2E) + given;
    if name.contains(0x2F) {
        let i = choose|i: int| 0 <= i < name.len() && name[i] == 0x2F;
        if i < stem.len() {
            assert(stem[i] == 0x2F);
        } else if i > stem.len() {
            assert(given[i - stem.len() - 1] == 0x2F);
        }
    }
    law_join_adds_one_name(folder, name);
    reveal_strlit("mp4");
    reveal_strlit("mov");
    reveal_strlit("mkv");
    reveal_strlit("webm");
    is_ascii_chars_encode_utf8("mp4"@);
    is_ascii_chars_encode_utf8("mov"@);
    is_ascii_chars_encode_utf8("mkv"@);
    is_ascii_chars_encode_utf8("webm"@);
    law_extension_follows_the_last_dot(stem, given, encode_utf8("mp4"@));
    law_extension_follows_the_last_dot(stem, given, encode_utf8("mov"@));
    law_extension_follows_the_last_dot(stem, given, encode_utf8("mkv"@));
    law_extension_follows_the_last_dot(stem, given, encode_utf8("webm"@));
}

/// A file whose name has no dot after its first character is no video.
pub proof fn law_no_dot_no_video(folder: Seq<u8>, name: Seq<u8>)
    requires
        name.len() > 0,
        !name.contains(0x2F),
        name != here(),
        forall|i: int| 0 < i < name.len() ==> name[i] != 0x2E,
    ensures
        !is_video(paths::joined(folder, name)),
{
    law_join_adds_one_name(folder, name);
    law_no_dot_no_extension(name, encode_utf8("mp4"@));
    law_no_dot_no_extension(name, encode_utf8("mov"@));
    law_no_dot_no_extension(name, encode_utf8("mkv"@));
    law_no_dot_no_extension(name, encode_utf8("webm"@));
}

} // verus!
