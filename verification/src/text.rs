//! Text: trimming, comparing, searching and splitting it, and writing numbers.

use vstd::prelude::*;
use vstd::string::*;
use vstd::utf8::*;

verus! {

/// Whether `c` has the Unicode property `White_Space`.
pub open spec fn is_space(c: char) -> bool {
    ||| 0x9 <= c as u32 <= 0xD
    ||| c as u32 == 0x20
    ||| c as u32 == 0x85
    ||| c as u32 == 0xA0
    ||| c as u32 == 0x1680
    ||| 0x2000 <= c as u32 <= 0x200A
    ||| c as u32 == 0x2028
    ||| c as u32 == 0x2029
    ||| c as u32 == 0x202F
    ||| c as u32 == 0x205F
    ||| c as u32 == 0x3000
}

/// Whether `c` is white space.
pub fn is_white_space(c: char) -> (res: bool)
    ensures
        res == is_space(c),
{
    let code: u32 = c as u32;
    (0x9 <= code && code <= 0xD) || code == 0x20 || code == 0x85 || code == 0xA0 || code == 0x1680
        || (0x2000 <= code && code <= 0x200A) || code == 0x2028 || code == 0x2029 || code == 0x202F
        || code == 0x205F || code == 0x3000
}

/// `s` without its leading white space.
pub open spec fn trim_front(s: Seq<char>) -> Seq<char>
    decreases s.len(),
{
    if s.len() > 0 && is_space(s[0]) {
        trim_front(s.drop_first())
    } else {
        s
    }
}

/// `s` without its trailing white space.
pub open spec fn trim_back(s: Seq<char>) -> Seq<char>
    decreases s.len(),
{
    if s.len() > 0 && is_space(s.last()) {
        trim_back(s.drop_last())
    } else {
        s
    }
}

/// `s` without its leading and trailing white space.
pub open spec fn trimmed(s: Seq<char>) -> Seq<char> {
    trim_back(trim_front(s))
}

proof fn lemma_trim_front(s: Seq<char>, from: int)
    requires
        0 <= from <= s.len(),
        forall|i: int| 0 <= i < from ==> is_space(#[trigger] s[i]),
        from < s.len() ==> !is_space(s[from]),
    ensures
        trim_front(s) == s.skip(from),
    decreases s.len(),
{
    if from > 0 {
        let rest = s.drop_first();
        assert(is_space(s[0]));
        assert(forall|i: int| 0 <= i < from - 1 ==> rest[i] == s[i + 1]);
        assert forall|i: int| 0 <= i < from - 1 implies is_space(#[trigger] rest[i]) by {
            assert(is_space(s[i + 1]));
        }
        lemma_trim_front(rest, from - 1);
        assert(rest.skip(from - 1) =~= s.skip(from));
    } else {
        assert(s.skip(0) =~= s);
    }
}

proof fn lemma_trim_back(s: Seq<char>, to: int)
    requires
        0 <= to <= s.len(),
        forall|i: int| to <= i < s.len() ==> is_space(#[trigger] s[i]),
        to > 0 ==> !is_space(s[to - 1]),
    ensures
        trim_back(s) == s.take(to),
    decreases s.len(),
{
    if to < s.len() {
        let rest = s.drop_last();
        assert(is_space(s[s.len() - 1]));
        assert forall|i: int| to <= i < rest.len() implies is_space(#[trigger] rest[i]) by {
            assert(is_space(s[i]));
        }
        lemma_trim_back(rest, to);
        assert(rest.take(to) =~= s.take(to));
    } else {
        assert(s.take(to) =~= s);
    }
}

proof fn lemma_trim_front_starts(s: Seq<char>)
    ensures
        trim_front(s).len() > 0 ==> !is_space(trim_front(s)[0]),
    decreases s.len(),
{
    if s.len() > 0 && is_space(s[0]) {
        lemma_trim_front_starts(s.drop_first());
    }
}

proof fn lemma_trim_back_ends(s: Seq<char>)
    ensures
        trim_back(s).is_prefix_of(s),
        trim_back(s).len() > 0 ==> !is_space(trim_back(s).last()),
    decreases s.len(),
{
    if s.len() > 0 && is_space(s.last()) {
        lemma_trim_back_ends(s.drop_last());
    }
}

/// What was trimmed is not changed by trimming it again.
pub proof fn lemma_trimmed_once(s: Seq<char>)
    ensures
        trimmed(trimmed(s)) == trimmed(s),
{
    lemma_trim_front_starts(s);
    lemma_trim_back_ends(trim_front(s));
}

/// Whether `s` is white space and nothing else.
pub open spec fn is_blank(s: Seq<char>) -> bool {
    forall|i: int| 0 <= i < s.len() ==> is_space(#[trigger] s[i])
}

proof fn lemma_front_cut(s: Seq<char>) -> (from: int)
    ensures
        0 <= from <= s.len(),
        trim_front(s) == s.skip(from),
        forall|i: int| 0 <= i < from ==> is_space(#[trigger] s[i]),
        from < s.len() ==> !is_space(s[from]),
    decreases s.len(),
{
    if s.len() > 0 && is_space(s[0]) {
        let from = lemma_front_cut(s.drop_first()) + 1;
        assert forall|i: int| 0 <= i < from implies is_space(#[trigger] s[i]) by {
            if i > 0 {
                assert(is_space(s.drop_first()[i - 1]));
            }
        }
        assert(s.drop_first().skip(from - 1) =~= s.skip(from));
        from
    } else {
        assert(s.skip(0) =~= s);
        0
    }
}

proof fn lemma_back_cut(s: Seq<char>) -> (to: int)
    ensures
        0 <= to <= s.len(),
        trim_back(s) == s.take(to),
        forall|i: int| to <= i < s.len() ==> is_space(#[trigger] s[i]),
        to > 0 ==> !is_space(s[to - 1]),
    decreases s.len(),
{
    if s.len() > 0 && is_space(s.last()) {
        let to = lemma_back_cut(s.drop_last());
        assert forall|i: int| to <= i < s.len() implies is_space(#[trigger] s[i]) by {
            if i < s.len() - 1 {
                assert(is_space(s.drop_last()[i]));
            }
        }
        assert(s.drop_last().take(to) =~= s.take(to));
        to
    } else {
        assert(s.take(s.len() as int) =~= s);
        s.len() as int
    }
}

/// Trimming cuts white space off at both ends, and nothing else: what is cut is
/// white space, and what is kept is all that lies between, from the first
/// character that is none to the last. Nothing is kept exactly of a blank text.
pub proof fn law_trimming_cuts_both_ends(s: Seq<char>) -> (cut: (int, int))
    ensures
        0 <= cut.0 <= cut.1 <= s.len(),
        trimmed(s) == s.subrange(cut.0, cut.1),
        forall|i: int| 0 <= i < cut.0 ==> is_space(#[trigger] s[i]),
        forall|i: int| cut.1 <= i < s.len() ==> is_space(#[trigger] s[i]),
        cut.0 < cut.1 ==> !is_space(s[cut.0]) && !is_space(s[cut.1 - 1]),
        cut.0 == cut.1 <==> is_blank(s),
{
    let from = lemma_front_cut(s);
    let front = s.skip(from);
    let to = from + lemma_back_cut(front);
    assert(front.take(to - from) =~= s.subrange(from, to));
    assert forall|i: int| to <= i < s.len() implies is_space(#[trigger] s[i]) by {
        assert(is_space(front[i - from]));
    }
    if from < s.len() {
        if to == from {
            assert(is_space(front[0]));
        }
        assert(front[to - from - 1] == s[to - 1]);
        assert(!is_blank(s));
    }
    (from, to)
}

/// A blank text counts as none, and any other is kept without its surrounding
/// white space.
pub proof fn law_blank_counts_as_none(s: Seq<char>)
    ensures
        is_blank(s) <==> trimmed(s).len() == 0,
        is_blank(s) ==> trimmed_or_none(Some(s)) is None,
        !is_blank(s) ==> trimmed_or_none(Some(s)) == Some(trimmed(s)),
        trimmed_or_none(None) is None,
{
    let cut = law_trimming_cuts_both_ends(s);
}

/// `s` without its leading and trailing white space.
pub fn trim<'a>(s: &'a str) -> (res: &'a str)
    ensures
        res@ == trimmed(s@),
{
    let mut from: usize = 0;
    let mut to: usize = 0;
    let mut seen: usize = 0;
    let len: usize = s.unicode_len();
    for c in it: s.chars()
        invariant
            len == s@.len(),
            it.seq() == s@,
            seen == it.index(),
            from <= to <= seen,
            from == to ==> from == 0,
            forall|i: int| 0 <= i < from ==> is_space(#[trigger] s@[i]),
            forall|i: int| to <= i < seen ==> is_space(#[trigger] s@[i]),
            from < to ==> !is_space(s@[from as int]) && !is_space(s@[to - 1]),
    {
        assert(c == s@[seen as int]);
        if !is_white_space(c) {
            if to == 0 {
                from = seen;
            }
            to = seen + 1;
        }
        seen = seen + 1;
    }
    proof {
        if from < to {
            lemma_trim_front(s@, from as int);
            let front = s@.skip(from as int);
            assert(forall|i: int| 0 <= i < front.len() ==> front[i] == s@[i + from]);
            lemma_trim_back(front, to - from);
            assert(front.take(to - from) =~= s@.subrange(from as int, to as int));
        } else {
            lemma_trim_front(s@, s@.len() as int);
            lemma_trim_back(s@.skip(s@.len() as int), 0);
            assert(s@.subrange(0, 0) =~= s@.skip(s@.len() as int).take(0));
        }
    }
    s.substring_char(from, to)
}

/// `raw` without its surrounding white space, when anything is left of it.
pub open spec fn trimmed_or_none(raw: Option<Seq<char>>) -> Option<Seq<char>> {
    match raw {
        Some(s) => if trimmed(s).len() == 0 {
            None
        } else {
            Some(trimmed(s))
        },
        None => None,
    }
}

/// What `raw` holds, as a sequence of characters.
pub open spec fn text_of(raw: Option<&str>) -> Option<Seq<char>> {
    match raw {
        Some(s) => Some(s@),
        None => None,
    }
}

/// What `raw` holds, as a sequence of characters.
pub open spec fn string_of(raw: Option<String>) -> Option<Seq<char>> {
    match raw {
        Some(s) => Some(s@),
        None => None,
    }
}

/// Trims `raw`, and drops it when nothing but white space was there.
pub fn trim_or_none(raw: Option<&str>) -> (res: Option<String>)
    ensures
        string_of(res) == trimmed_or_none(text_of(raw)),
{
    match raw {
        Some(s) => {
            let kept: &str = trim(s);
            if kept.is_empty() {
                None
            } else {
                Some(kept.to_owned())
            }
        },
        None => None,
    }
}

/// Whether `s` starts with `prefix`.
pub fn starts_with(s: &str, prefix: &str) -> (res: bool)
    ensures
        res == prefix@.is_prefix_of(s@),
{
    let n: usize = prefix.unicode_len();
    if s.unicode_len() < n {
        return false;
    }
    let head: &str = s.substring_char(0, n);
    same_text(head, prefix)
}

/// Whether `a` and `b` are the same text.
pub fn same_text(a: &str, b: &str) -> (res: bool)
    ensures
        res == (a@ == b@),
{
    proof {
        lemma_same_bytes(a@, b@);
    }
    same_bytes(a.as_bytes(), b.as_bytes())
}

/// Whether `a` and `b` are the same bytes.
pub fn same_bytes(a: &[u8], b: &[u8]) -> (res: bool)
    ensures
        res == (a@ == b@),
{
    if a.len() != b.len() {
        return false;
    }
    let n: usize = a.len();
    for i in 0..n
        invariant
            n == a@.len() == b@.len(),
            forall|j: int| 0 <= j < i ==> a@[j] == b@[j],
    {
        if a[i] != b[i] {
            return false;
        }
    }
    assert(a@ =~= b@);
    true
}

/// Two texts are the same exactly when their UTF-8 encodings are.
pub proof fn lemma_same_bytes(a: Seq<char>, b: Seq<char>)
    ensures
        (encode_utf8(a) == encode_utf8(b)) == (a == b),
{
    encode_utf8_decode_utf8(a);
    encode_utf8_decode_utf8(b);
}

/// Texts are encoded one after the other.
pub proof fn lemma_encode_both(a: Seq<char>, b: Seq<char>)
    ensures
        encode_utf8(a + b) == encode_utf8(a) + encode_utf8(b),
    decreases a.len(),
{
    if a.len() == 0 {
        assert(a + b =~= b);
    } else {
        lemma_encode_both(a.drop_first(), b);
        assert((a + b).drop_first() =~= a.drop_first() + b);
        assert((a + b)[0] == a[0]);
    }
    assert(encode_utf8(a + b) =~= encode_utf8(a) + encode_utf8(b));
}

proof fn lemma_scalar_slash(c: char)
    requires
        c != '/',
    ensures
        !encode_scalar(c as u32).contains(0x2F),
{
    let u = c as u32;
    assert(u != 0x2F);
    assert(u <= 0x7F && u != 0x2F ==> (u & 0x7F) as u8 != 0x2F) by (bit_vector);
    assert((0xC0u8 | ((u >> 6) & 0x1F) as u8) >= 0x80) by (bit_vector);
    assert((0xE0u8 | ((u >> 12) & 0x0F) as u8) >= 0x80) by (bit_vector);
    assert((0xF0u8 | ((u >> 18) & 0x7) as u8) >= 0x80) by (bit_vector);
    assert((0x80u8 | (u & 0x3F) as u8) >= 0x80) by (bit_vector);
    assert((0x80u8 | ((u >> 6) & 0x3F) as u8) >= 0x80) by (bit_vector);
    assert((0x80u8 | ((u >> 12) & 0x3F) as u8) >= 0x80) by (bit_vector);
}

/// A slash stands in the UTF-8 encoding of a text only where one stands in the
/// text.
pub proof fn lemma_encoded_slash(s: Seq<char>)
    requires
        !s.contains('/'),
    ensures
        !encode_utf8(s).contains(0x2F),
    decreases s.len(),
{
    if s.len() > 0 {
        let rest = s.drop_first();
        assert(s.contains(s[0]));
        assert forall|i: int| 0 <= i < rest.len() implies rest[i] != '/' by {
            assert(s.contains(s[i + 1]));
        }
        lemma_scalar_slash(s[0]);
        lemma_encoded_slash(rest);
        let first = encode_scalar(s[0] as u32);
        let all = encode_utf8(s);
        assert(all == first + encode_utf8(rest));
        if all.contains(0x2F) {
            let i = choose|i: int| 0 <= i < all.len() && all[i] == 0x2F;
            if i < first.len() {
                assert(first[i] == 0x2F);
            } else {
                assert(encode_utf8(rest)[i - first.len()] == 0x2F);
            }
        }
    }
}

/// Whether `c` occurs in `s`.
pub fn contains_char(s: &str, c: char) -> (res: bool)
    ensures
        res == s@.contains(c),
{
    let mut found: bool = false;
    for d in it: s.chars()
        invariant
            it.seq() == s@,
            found == exists|i: int| 0 <= i < it.index() && s@[i] == c,
    {
        if d == c {
            found = true;
        }
    }
    found
}

/// Whether `c` occurs in `s` twice in a row.
pub open spec fn has_double(s: Seq<char>, c: char) -> bool {
    exists|i: int| 0 <= i < s.len() - 1 && #[trigger] s[i] == c && s[i + 1] == c
}

/// Whether `c` occurs in `s` twice in a row.
pub fn contains_double(s: &str, c: char) -> (res: bool)
    ensures
        res == has_double(s@, c),
{
    let mut found: bool = false;
    let mut after: bool = false;
    for d in it: s.chars()
        invariant
            it.seq() == s@,
            after == (it.index() > 0 && s@[it.index() - 1] == c),
            found == exists|i: int| 0 <= i < it.index() - 1 && #[trigger] s@[i] == c && s@[i + 1] == c,
    {
        let ghost k = it.index();
        let ghost before = found;
        assert(d == s@[k]);
        if after && d == c {
            found = true;
            assert(s@[k - 1] == c && s@[k - 1 + 1] == c);
        }
        after = d == c;
        proof {
            if exists|i: int| 0 <= i < k && #[trigger] s@[i] == c && s@[i + 1] == c {
                let i = choose|i: int| 0 <= i < k && #[trigger] s@[i] == c && s@[i + 1] == c;
                if i < k - 1 {
                    assert(before);
                }
            }
        }
    }
    found
}

/// The parts of `s` between the occurrences of `sep`, one more than there are
/// of these.
pub open spec fn split<T>(s: Seq<T>, sep: T) -> Seq<Seq<T>>
    decreases s.len(),
{
    if s.len() == 0 {
        seq![s]
    } else {
        let parts = split(s.drop_last(), sep);
        if s.last() == sep {
            parts.push(Seq::empty())
        } else {
            parts.drop_last().push(parts.last().push(s.last()))
        }
    }
}

/// There is at least one part.
pub proof fn lemma_split_some<T>(s: Seq<T>, sep: T)
    ensures
        split(s, sep).len() > 0,
    decreases s.len(),
{
    if s.len() > 0 {
        lemma_split_some(s.drop_last(), sep);
    }
}

/// Without a separator there is one part, the whole.
pub proof fn lemma_split_whole<T>(s: Seq<T>, sep: T)
    requires
        !s.contains(sep),
    ensures
        split(s, sep) == seq![s],
    decreases s.len(),
{
    if s.len() > 0 {
        let front = s.drop_last();
        assert(s.contains(s[s.len() - 1]));
        assert forall|i: int| 0 <= i < front.len() implies front[i] != sep by {
            assert(s.contains(s[i]));
        }
        lemma_split_whole(front, sep);
        assert(front.push(s.last()) =~= s);
        assert(split(s, sep) =~= seq![s]);
    }
}

/// The parts of two texts with a separator between them are those of the one and
/// after them those of the other.
pub proof fn lemma_split_both<T>(front: Seq<T>, sep: T, rest: Seq<T>)
    ensures
        split(front.push(sep) + rest, sep) == split(front, sep) + split(rest, sep),
    decreases rest.len(),
{
    let s = front.push(sep) + rest;
    if rest.len() == 0 {
        assert(s.drop_last() =~= front);
        assert(rest =~= Seq::empty());
    } else {
        lemma_split_both(front, sep, rest.drop_last());
        lemma_split_some(rest.drop_last(), sep);
        assert(s.drop_last() =~= front.push(sep) + rest.drop_last());
        assert(s.last() == rest.last());
    }
    assert(split(s, sep) =~= split(front, sep) + split(rest, sep));
}

/// What stands before the first separator is the first part.
pub proof fn lemma_split_first<T>(first: Seq<T>, sep: T, rest: Seq<T>)
    requires
        !first.contains(sep),
    ensures
        split(first.push(sep) + rest, sep) == seq![first] + split(rest, sep),
{
    lemma_split_both(first, sep, rest);
    lemma_split_whole(first, sep);
}

/// What stands after the last separator is the last part.
pub proof fn lemma_split_last<T>(front: Seq<T>, sep: T, last: Seq<T>)
    requires
        !last.contains(sep),
    ensures
        split(front.push(sep) + last, sep) == split(front, sep).push(last),
{
    lemma_split_both(front, sep, last);
    lemma_split_whole(last, sep);
    assert(split(front, sep) + seq![last] =~= split(front, sep).push(last));
}

/// The bytes of each of `parts`.
pub open spec fn bytes_of(parts: Seq<Vec<u8>>) -> Seq<Seq<u8>> {
    Seq::new(parts.len(), |i: int| parts[i]@)
}

/// The parts of `s` between the occurrences of `sep`.
pub fn split_bytes(s: &[u8], sep: u8) -> (res: Vec<Vec<u8>>)
    ensures
        bytes_of(res@) == split(s@, sep),
{
    let mut res: Vec<Vec<u8>> = Vec::new();
    let mut part: Vec<u8> = Vec::new();
    let n: usize = s.len();
    assert(s@.take(0) =~= Seq::<u8>::empty());
    assert(bytes_of(res@).push(part@) =~= split(s@.take(0), sep));
    for i in 0..n
        invariant
            n == s@.len(),
            bytes_of(res@).push(part@) == split(s@.take(i as int), sep),
    {
        let ghost before = bytes_of(res@);
        let ghost parts = split(s@.take(i as int), sep);
        assert(s@.take(i + 1).drop_last() =~= s@.take(i as int));
        assert(parts.last() == part@ && parts.drop_last() =~= before);
        if s[i] == sep {
            let ghost whole = part@;
            res.push(part);
            part = Vec::new();
            assert(bytes_of(res@) =~= before.push(whole));
        } else {
            part.push(s[i]);
        }
        assert(bytes_of(res@).push(part@) =~= split(s@.take(i + 1), sep));
    }
    assert(s@.take(n as int) =~= s@);
    let ghost before = bytes_of(res@);
    let ghost whole = part@;
    res.push(part);
    assert(bytes_of(res@) =~= before.push(whole));
    res
}

/// The decimal digit `d`.
pub open spec fn digit(d: nat) -> char {
    ('0' as u32 + d) as char
}

/// `n` in decimal, without leading zeros.
pub open spec fn decimal(n: nat) -> Seq<char>
    decreases n,
{
    if n < 10 {
        seq![digit(n)]
    } else {
        decimal(n / 10).push(digit(n % 10))
    }
}

/// `n` in decimal, with at least two digits.
pub open spec fn two_digits(n: nat) -> Seq<char> {
    if n < 10 {
        seq!['0', digit(n)]
    } else {
        decimal(n)
    }
}

fn digit_text(d: u64) -> (res: &'static str)
    requires
        d < 10,
    ensures
        res@ == seq![digit(d as nat)],
{
    proof {
        reveal_strlit("0");
        reveal_strlit("1");
        reveal_strlit("2");
        reveal_strlit("3");
        reveal_strlit("4");
        reveal_strlit("5");
        reveal_strlit("6");
        reveal_strlit("7");
        reveal_strlit("8");
        reveal_strlit("9");
    }
    match d {
        0 => "0",
        1 => "1",
        2 => "2",
        3 => "3",
        4 => "4",
        5 => "5",
        6 => "6",
        7 => "7",
        8 => "8",
        _ => "9",
    }
}

/// Writes `n` in decimal.
pub fn decimal_text(n: u64) -> (res: String)
    ensures
        res@ == decimal(n as nat),
    decreases n,
{
    if n < 10 {
        digit_text(n).to_owned()
    } else {
        let mut res: String = decimal_text(n / 10);
        res.append(digit_text(n % 10));
        assert(res@ =~= decimal(n as nat));
        res
    }
}

/// Writes `n` in decimal, with a leading zero below ten.
pub fn two_digit_text(n: u64) -> (res: String)
    ensures
        res@ == two_digits(n as nat),
{
    if n < 10 {
        let mut res: String = "0".to_owned();
        res.append(digit_text(n));
        proof {
            reveal_strlit("0");
        }
        assert(res@ =~= two_digits(n as nat));
        res
    } else {
        decimal_text(n)
    }
}

} // verus!
