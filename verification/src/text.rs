//! Text operations over a string's characters: comparison, prefixes and
//! suffixes, splitting and trimming.

use vstd::prelude::*;
use vstd::string::StrSliceExecFns;

verus! {

/// `s` begins with `prefix`.
pub open spec fn begins_with(s: Seq<char>, prefix: Seq<char>) -> bool {
    s.len() >= prefix.len() && s.take(prefix.len() as int) == prefix
}

/// `s` ends with `suffix`.
pub open spec fn finishes_with(s: Seq<char>, suffix: Seq<char>) -> bool {
    s.len() >= suffix.len() && s.skip(s.len() - suffix.len()) == suffix
}

/// Index of the first `c` in `s`, or the length of `s` when there is none.
pub open spec fn first_index(s: Seq<char>, c: char) -> int
    decreases s.len(),
{
    if s.len() == 0 || s[0] == c {
        0
    } else {
        1 + first_index(s.drop_first(), c)
    }
}

/// The ASCII letters `A` to `Z` as `a` to `z`; every other character as it is.
pub open spec fn ascii_lower(c: char) -> char {
    if 'A' <= c && c <= 'Z' {
        (c as u32 + 32) as char
    } else {
        c
    }
}

/// The ASCII letters `a` to `z` as `A` to `Z`; every other character as it is.
pub open spec fn ascii_upper(c: char) -> char {
    if 'a' <= c && c <= 'z' {
        (c as u32 - 32) as char
    } else {
        c
    }
}

/// `s` without its leading whitespace.
pub open spec fn trim_front(s: Seq<char>) -> Seq<char>
    decreases s.len(),
{
    if s.len() > 0 && white_space(s[0]) {
        trim_front(s.drop_first())
    } else {
        s
    }
}

/// `s` without its trailing whitespace.
pub open spec fn trim_back(s: Seq<char>) -> Seq<char>
    decreases s.len(),
{
    if s.len() > 0 && white_space(s.last()) {
        trim_back(s.drop_last())
    } else {
        s
    }
}

/// `s` without the whitespace on either end.
pub open spec fn trimmed(s: Seq<char>) -> Seq<char> {
    trim_back(trim_front(s))
}

/// `s` without the run of `c` it ends in.
pub open spec fn without_trailing(s: Seq<char>, c: char) -> Seq<char>
    decreases s.len(),
{
    if s.len() > 0 && s.last() == c {
        without_trailing(s.drop_last(), c)
    } else {
        s
    }
}

/// The characters with Unicode's White_Space property.
pub open spec fn white_space(c: char) -> bool {
    let u = c as u32;
    ||| 0x09 <= u <= 0x0d
    ||| u == 0x20
    ||| u == 0x85
    ||| u == 0xa0
    ||| u == 0x1680
    ||| 0x2000 <= u <= 0x200a
    ||| u == 0x2028
    ||| u == 0x2029
    ||| u == 0x202f
    ||| u == 0x205f
    ||| u == 0x3000
}

/// `char::is_whitespace`: true of exactly the characters with Unicode's
/// White_Space property, which [`white_space`] lists.
pub assume_specification[ char::is_whitespace ](c: char) -> (yes: bool)
    ensures
        yes == white_space(c),
;

/// `str::to_ascii_uppercase`: a copy with the ASCII lower-case letters mapped
/// to their upper-case ones and every other character kept.
pub assume_specification[ str::to_ascii_uppercase ](s: &str) -> (upper: String)
    ensures
        upper@ == s@.map_values(|c: char| ascii_upper(c)),
;

/// `char::to_ascii_lowercase`: the lower-case letter of an ASCII upper-case
/// one, any other character itself.
pub assume_specification[ char::to_ascii_lowercase ](c: &char) -> (lower: char)
    ensures
        lower == ascii_lower(*c),
;

/// The characters of `s`, in order.
pub(crate) fn chars_of(s: &str) -> (v: Vec<char>)
    ensures
        v@ == s@,
{
    let mut v: Vec<char> = Vec::new();
    for c in it: s.chars()
        invariant
            it.seq() == s@,
            v@ == s@.take(it.index() as int),
    {
        v.push(c);
        assert(v@ =~= s@.take(it.index() as int + 1));
    }
    assert(s@.take(s@.len() as int) =~= s@);
    v
}

/// Whether two strings hold the same characters.
pub(crate) fn same(a: &str, b: &str) -> (yes: bool)
    ensures
        yes == (a@ == b@),
{
    a.to_string() == b.to_string()
}

/// Whether `s` begins with `prefix`.
pub(crate) fn starts_with(s: &str, prefix: &str) -> (yes: bool)
    ensures
        yes == begins_with(s@, prefix@),
{
    let n: usize = prefix.unicode_len();
    s.unicode_len() >= n && same(s.substring_char(0, n), prefix)
}

/// What follows `prefix` in `s`, when `s` begins with it.
pub(crate) fn strip_prefix<'a>(s: &'a str, prefix: &str) -> (rest: Option<&'a str>)
    ensures
        match rest {
            Some(r) => begins_with(s@, prefix@) && r@ == s@.skip(prefix@.len() as int),
            None => !begins_with(s@, prefix@),
        },
{
    if starts_with(s, prefix) {
        Some(s.substring_char(prefix.unicode_len(), s.unicode_len()))
    } else {
        None
    }
}

/// What precedes `suffix` in `s`, when `s` ends with it.
pub(crate) fn strip_suffix<'a>(s: &'a str, suffix: &str) -> (rest: Option<&'a str>)
    ensures
        match rest {
            Some(r) => finishes_with(s@, suffix@) && r@ == s@.take(s@.len() - suffix@.len()),
            None => !finishes_with(s@, suffix@),
        },
{
    let n: usize = suffix.unicode_len();
    let m: usize = s.unicode_len();
    if m >= n && same(s.substring_char(m - n, m), suffix) {
        Some(s.substring_char(0, m - n))
    } else {
        None
    }
}

/// Index of the first `c` in `s`, or the number of characters of `s`.
pub(crate) fn index_of(s: &str, c: char) -> (at: usize)
    ensures
        at == first_index(s@, c),
        at <= s@.len(),
{
    let v: Vec<char> = chars_of(s);
    let mut i: usize = 0;
    assert(s@.skip(0) =~= s@);
    while i < v.len()
        invariant
            i <= v.len(),
            v@ == s@,
            first_index(s@, c) == i + first_index(s@.skip(i as int), c),
        decreases v.len() - i,
    {
        if v[i] == c {
            return i;
        }
        assert(s@.skip(i as int).drop_first() =~= s@.skip(i as int + 1));
        i = i + 1;
    }
    i
}

/// `s` cut around its first `c`, when it holds one.
pub(crate) fn split_once<'a>(s: &'a str, c: char) -> (parts: Option<(&'a str, &'a str)>)
    ensures
        match parts {
            Some((a, b)) => {
                let at = first_index(s@, c);
                0 <= at < s@.len() && a@ == s@.take(at) && b@ == s@.skip(at + 1)
            },
            None => first_index(s@, c) >= s@.len(),
        },
{
    let at: usize = index_of(s, c);
    let n: usize = s.unicode_len();
    if at < n {
        Some((s.substring_char(0, at), s.substring_char(at + 1, n)))
    } else {
        None
    }
}

/// `s` without the whitespace on either end.
pub(crate) fn trim<'a>(s: &'a str) -> (t: &'a str)
    ensures
        t@ == trimmed(s@),
{
    let v: Vec<char> = chars_of(s);
    let mut from: usize = 0;
    assert(s@.skip(0) =~= s@);
    while from < v.len() && v[from].is_whitespace()
        invariant
            from <= v.len(),
            v@ == s@,
            trim_front(s@) == trim_front(s@.skip(from as int)),
        decreases v.len() - from,
    {
        assert(s@.skip(from as int).drop_first() =~= s@.skip(from as int + 1));
        from = from + 1;
    }
    let mut to: usize = v.len();
    assert(s@.subrange(from as int, to as int) =~= s@.skip(from as int));
    while to > from && v[to - 1].is_whitespace()
        invariant
            from <= to <= v.len(),
            v@ == s@,
            trimmed(s@) == trim_back(s@.subrange(from as int, to as int)),
        decreases to,
    {
        assert(s@.subrange(from as int, to as int).drop_last() =~= s@.subrange(
            from as int,
            to as int - 1,
        ));
        to = to - 1;
    }
    s.substring_char(from, to)
}

/// `s` without the run of `c` it ends in.
pub(crate) fn trim_end<'a>(s: &'a str, c: char) -> (t: &'a str)
    ensures
        t@ == without_trailing(s@, c),
{
    let v: Vec<char> = chars_of(s);
    let mut to: usize = v.len();
    assert(s@.take(to as int) =~= s@);
    while to > 0 && v[to - 1] == c
        invariant
            to <= v.len(),
            v@ == s@,
            without_trailing(s@, c) == without_trailing(s@.take(to as int), c),
        decreases to,
    {
        assert(s@.take(to as int).drop_last() =~= s@.take(to as int - 1));
        to = to - 1;
    }
    s.substring_char(0, to)
}

/// Whether two strings are the same up to the case of ASCII letters.
pub(crate) fn same_ignoring_ascii_case(a: &str, b: &str) -> (yes: bool)
    ensures
        yes == (a@.map_values(|c: char| ascii_lower(c)) == b@.map_values(|c: char| ascii_lower(c))),
{
    let va: Vec<char> = chars_of(a);
    let vb: Vec<char> = chars_of(b);
    let ghost la = a@.map_values(|c: char| ascii_lower(c));
    let ghost lb = b@.map_values(|c: char| ascii_lower(c));
    if va.len() != vb.len() {
        assert(la.len() != lb.len());
        return false;
    }
    let mut i: usize = 0;
    while i < va.len()
        invariant
            i <= va.len(),
            va.len() == vb.len(),
            va@ == a@,
            vb@ == b@,
            la == a@.map_values(|c: char| ascii_lower(c)),
            lb == b@.map_values(|c: char| ascii_lower(c)),
            forall|j: int| 0 <= j < i ==> la[j] == lb[j],
        decreases va.len() - i,
    {
        if va[i].to_ascii_lowercase() != vb[i].to_ascii_lowercase() {
            assert(la[i as int] != lb[i as int]);
            return false;
        }
        i = i + 1;
    }
    assert(la =~= lb);
    true
}

/// What begins with a prefix is that prefix and a rest, and nothing else is.
pub proof fn law_a_prefix_is_followed_by_the_rest(s: Seq<char>, prefix: Seq<char>, rest: Seq<char>)
    ensures
        begins_with(prefix + rest, prefix),
        begins_with(s, prefix) ==> s == prefix + s.skip(prefix.len() as int),
{
    assert((prefix + rest).take(prefix.len() as int) =~= prefix);
    if begins_with(s, prefix) {
        assert(s =~= s.take(prefix.len() as int) + s.skip(prefix.len() as int));
    }
}

/// What ends with a suffix is a rest and that suffix, and nothing else is.
pub proof fn law_a_suffix_follows_the_rest(s: Seq<char>, suffix: Seq<char>, rest: Seq<char>)
    ensures
        finishes_with(rest + suffix, suffix),
        finishes_with(s, suffix) ==> s == s.take(s.len() - suffix.len()) + suffix,
{
    assert((rest + suffix).skip(rest.len() as int) =~= suffix);
    if finishes_with(s, suffix) {
        let n = s.len() - suffix.len();
        assert(s =~= s.take(n) + s.skip(n));
    }
}

/// The first index of a character is where it stands first: it stands there,
/// unless that is the end, and nowhere before.
pub proof fn law_the_first_index_is_the_first(s: Seq<char>, c: char)
    ensures
        0 <= first_index(s, c) <= s.len(),
        first_index(s, c) < s.len() ==> s[first_index(s, c)] == c,
        forall|j: int| 0 <= j < first_index(s, c) ==> s[j] != c,
    decreases s.len(),
{
    if s.len() > 0 && s[0] != c {
        let rest = s.drop_first();
        law_the_first_index_is_the_first(rest, c);
        assert forall|j: int| 0 <= j < first_index(s, c) implies s[j] != c by {
            if j > 0 {
                assert(s[j] == rest[j - 1]);
            }
        }
    }
}

/// Lower case is 32 further on for `A` to `Z`, and upper case 32 further back
/// for `a` to `z`; no other character changes.
pub proof fn law_only_ascii_letters_change_case(c: char)
    ensures
        'A' <= c && c <= 'Z' ==> ascii_lower(c) as int == c as int + 32 && ascii_upper(c) == c,
        'a' <= c && c <= 'z' ==> ascii_upper(c) as int == c as int - 32 && ascii_lower(c) == c,
        !('A' <= c && c <= 'Z') && !('a' <= c && c <= 'z') ==> ascii_lower(c) == c && ascii_upper(c)
            == c,
{
}

proof fn lemma_trim_front(s: Seq<char>) -> (from: int)
    ensures
        0 <= from <= s.len(),
        trim_front(s) == s.skip(from),
        forall|j: int| 0 <= j < from ==> white_space(#[trigger] s[j]),
        from < s.len() ==> !white_space(s[from]),
    decreases s.len(),
{
    if s.len() > 0 && white_space(s[0]) {
        let rest = s.drop_first();
        let from = lemma_trim_front(rest);
        assert(rest.skip(from) =~= s.skip(from + 1));
        assert forall|j: int| 0 <= j < from + 1 implies white_space(#[trigger] s[j]) by {
            if j > 0 {
                assert(s[j] == rest[j - 1]);
            }
        }
        from + 1
    } else {
        assert(s.skip(0) =~= s);
        0
    }
}

proof fn lemma_trim_back(s: Seq<char>) -> (to: int)
    ensures
        0 <= to <= s.len(),
        trim_back(s) == s.take(to),
        forall|j: int| to <= j < s.len() ==> white_space(#[trigger] s[j]),
        to > 0 ==> !white_space(s[to - 1]),
    decreases s.len(),
{
    if s.len() > 0 && white_space(s.last()) {
        let rest = s.drop_last();
        let to = lemma_trim_back(rest);
        assert(rest.take(to) =~= s.take(to));
        assert forall|j: int| to <= j < s.len() implies white_space(#[trigger] s[j]) by {
            if j < rest.len() {
                assert(s[j] == rest[j]);
            }
        }
        to
    } else {
        assert(s.take(s.len() as int) =~= s);
        s.len() as int
    }
}

/// Trimming takes off whitespace at both ends and nothing else: what is left is
/// a piece of the text with whitespace before and after it, and does not begin
/// or end with any.
pub proof fn law_trimming_takes_only_whitespace_off_the_ends(s: Seq<char>) -> (cut: (int, int))
    ensures
        0 <= cut.0 <= cut.1 <= s.len(),
        trimmed(s) == s.subrange(cut.0, cut.1),
        forall|j: int| 0 <= j < cut.0 ==> white_space(#[trigger] s[j]),
        forall|j: int| cut.1 <= j < s.len() ==> white_space(#[trigger] s[j]),
        trimmed(s).len() > 0 ==> !white_space(trimmed(s)[0]) && !white_space(trimmed(s).last()),
{
    let from = lemma_trim_front(s);
    let rest = s.skip(from);
    let to = lemma_trim_back(rest);
    assert(rest.take(to) =~= s.subrange(from, from + to));
    assert forall|j: int| from + to <= j < s.len() implies white_space(#[trigger] s[j]) by {
        assert(s[j] == rest[j - from]);
    }
    if to > 0 {
        assert(trimmed(s)[0] == s[from]);
        assert(trimmed(s).last() == rest[to - 1]);
    }
    (from, from + to)
}

/// Whitespace is the characters of Unicode's White_Space property: of the ASCII
/// ones the space and the five controls from tab to carriage return, and the
/// twenty-five together.
pub proof fn law_whitespace_is_what_unicode_says(c: char)
    ensures
        white_space(c) <==> seq![
            0x09int, 0x0a, 0x0b, 0x0c, 0x0d, 0x20, 0x85, 0xa0, 0x1680, 0x2000, 0x2001, 0x2002,
            0x2003, 0x2004, 0x2005, 0x2006, 0x2007, 0x2008, 0x2009, 0x200a, 0x2028, 0x2029, 0x202f,
            0x205f, 0x3000,
        ].contains(c as int),
{
    let all = seq![
        0x09int, 0x0a, 0x0b, 0x0c, 0x0d, 0x20, 0x85, 0xa0, 0x1680, 0x2000, 0x2001, 0x2002, 0x2003,
        0x2004, 0x2005, 0x2006, 0x2007, 0x2008, 0x2009, 0x200a, 0x2028, 0x2029, 0x202f, 0x205f,
        0x3000,
    ];
    let u = c as int;
    if 0x09 <= u <= 0x0d {
        assert(all[u - 0x09] == u);
    } else if 0x2000 <= u <= 0x200a {
        assert(all[u - 0x2000 + 9] == u);
    } else if u == 0x20 {
        assert(all[5] == u);
    } else if u == 0x85 {
        assert(all[6] == u);
    } else if u == 0xa0 {
        assert(all[7] == u);
    } else if u == 0x1680 {
        assert(all[8] == u);
    } else if u == 0x2028 {
        assert(all[20] == u);
    } else if u == 0x2029 {
        assert(all[21] == u);
    } else if u == 0x202f {
        assert(all[22] == u);
    } else if u == 0x205f {
        assert(all[23] == u);
    } else if u == 0x3000 {
        assert(all[24] == u);
    }
}

/// Taking off a trailing run takes off that character alone, and all of it.
pub proof fn law_a_trailing_run_is_taken_off_whole(s: Seq<char>, c: char) -> (to: int)
    ensures
        0 <= to <= s.len(),
        without_trailing(s, c) == s.take(to),
        forall|j: int| to <= j < s.len() ==> s[j] == c,
        to > 0 ==> s[to - 1] != c,
    decreases s.len(),
{
    if s.len() > 0 && s.last() == c {
        let rest = s.drop_last();
        let to = law_a_trailing_run_is_taken_off_whole(rest, c);
        assert(rest.take(to) =~= s.take(to));
        assert forall|j: int| to <= j < s.len() implies s[j] == c by {
            if j < rest.len() {
                assert(s[j] == rest[j]);
            }
        }
        to
    } else {
        assert(s.take(s.len() as int) =~= s);
        s.len() as int
    }
}

/// In a text cut by a character that its first part does not hold, that
/// character stands first where the first part ends.
pub proof fn law_the_first_part_ends_at_the_first_index(
    first: Seq<char>,
    c: char,
    second: Seq<char>,
)
    requires
        !first.contains(c),
    ensures
        first_index(first + seq![c] + second, c) == first.len(),
        first_index(first, c) == first.len(),
{
    let all = first + seq![c] + second;
    law_the_first_index_is_the_first(all, c);
    law_the_first_index_is_the_first(first, c);
    assert(all[first.len() as int] == c);
    let at = first_index(all, c);
    if at < first.len() {
        assert(first[at] == all[at]);
        assert(first.contains(c));
    }
    let at = first_index(first, c);
    if at < first.len() {
        assert(first.contains(first[at]));
    }
}

} // verus!
