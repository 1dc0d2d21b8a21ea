//! Verified character-level string utilities: equality, substring search,
//! prefix tests, whitespace trimming, splitting and joining.
//!
//! All contracts are stated over `Seq<char>` views.

use vstd::prelude::*;
use vstd::string::StrSliceExecFns;

verus! {

/// Character-wise equality of two string slices.
pub fn str_eq(a: &str, b: &str) -> (r: bool)
    ensures
        r == (a@ == b@),
{
    let alen = a.unicode_len();
    let blen = b.unicode_len();
    if alen != blen {
        return false;
    }
    let mut i: usize = 0;
    while i < alen
        invariant
            alen == a@.len(),
            blen == b@.len(),
            alen == blen,
            i <= alen,
            forall|j: int| 0 <= j < i ==> a@[j] == b@[j],
        decreases alen - i,
    {
        if a.get_char(i) != b.get_char(i) {
            return false;
        }
        i += 1;
    }
    proof {
        assert(a@ =~= b@);
    }
    true
}

/// Index of the first occurrence of `c` in `s`, if any.
pub open spec fn first_index_of(s: Seq<char>, c: char) -> Option<int>
    decreases s.len(),
{
    if s.len() == 0 {
        None
    } else if s[0] == c {
        Some(0)
    } else {
        match first_index_of(s.skip(1), c) {
            Some(i) => Some(i + 1),
            None => None,
        }
    }
}

/// `first_index_of` returns the least index holding `c`, or `None` when
/// `c` does not occur.
pub proof fn lemma_first_index_of(s: Seq<char>, c: char)
    ensures
        match first_index_of(s, c) {
            Some(i) => 0 <= i < s.len() && s[i] == c && (forall|j: int| 0 <= j < i ==> s[j] != c),
            None => forall|j: int| 0 <= j < s.len() ==> s[j] != c,
        },
    decreases s.len(),
{
    if s.len() == 0 {
    } else if s[0] == c {
    } else {
        lemma_first_index_of(s.skip(1), c);
        match first_index_of(s.skip(1), c) {
            Some(i) => {
                assert(s[i + 1] == s.skip(1)[i]);
                assert forall|j: int| 0 <= j < i + 1 implies s[j] != c by {
                    if j >= 1 {
                        assert(s.skip(1)[j - 1] != c);
                        assert(s.skip(1)[j - 1] == s[j]);
                    }
                }
            },
            None => {
                assert forall|j: int| 0 <= j < s.len() implies s[j] != c by {
                    if j >= 1 {
                        assert(s.skip(1)[j - 1] != c);
                        assert(s.skip(1)[j - 1] == s[j]);
                    }
                }
            },
        }
    }
}

/// First position of `c` in `s`, scanning left to right.
pub fn find_char(s: &str, c: char) -> (r: Option<usize>)
    ensures
        match r {
            Some(i) => first_index_of(s@, c) == Some(i as int),
            None => first_index_of(s@, c) is None,
        },
{
    proof {
        lemma_first_index_of(s@, c);
    }
    let len = s.unicode_len();
    let mut i: usize = 0;
    while i < len
        invariant
            len == s@.len(),
            i <= len,
            forall|j: int| 0 <= j < i ==> s@[j] != c,
        decreases len - i,
    {
        if s.get_char(i) == c {
            proof {
                lemma_first_index_of(s@, c);
            }
            return Some(i);
        }
        i += 1;
    }
    None
}

/// Whether the characters of `s` starting at `i` spell out `needle`.
fn matches_at(hay: &str, needle: &str, i: usize) -> (r: bool)
    requires
        i + needle@.len() <= hay@.len(),
    ensures
        r == (hay@.subrange(i as int, i + needle@.len()) == needle@),
{
    let hlen = hay.unicode_len();
    let nlen = needle.unicode_len();
    let mut j: usize = 0;
    while j < nlen
        invariant
            hlen == hay@.len(),
            nlen == needle@.len(),
            i + nlen <= hlen,
            j <= nlen,
            forall|m: int| 0 <= m < j ==> hay@[i + m] == needle@[m],
        decreases nlen - j,
    {
        if hay.get_char(i + j) != needle.get_char(j) {
            assert(hay@.subrange(i as int, i + needle@.len())[j as int] == hay@[i + j]);
            return false;
        }
        j += 1;
    }
    proof {
        assert(hay@.subrange(i as int, i + needle@.len()) =~= needle@);
    }
    true
}

/// `needle` occurs contiguously somewhere in `hay`.
pub open spec fn has_substring(hay: Seq<char>, needle: Seq<char>) -> bool {
    exists|i: int|
        0 <= i <= hay.len() - needle.len() && #[trigger] hay.subrange(i, i + needle.len())
            == needle
}

/// Substring search by scanning every candidate start position.
pub fn contains_substr(hay: &str, needle: &str) -> (r: bool)
    ensures
        r == has_substring(hay@, needle@),
{
    let hlen = hay.unicode_len();
    let nlen = needle.unicode_len();
    if nlen > hlen {
        return false;
    }
    if nlen == 0 {
        proof {
            assert(hay@.subrange(0, 0 + needle@.len() as int) =~= needle@);
        }
        return true;
    }
    let mut i: usize = 0;
    while i <= hlen - nlen
        invariant
            hlen == hay@.len(),
            nlen == needle@.len(),
            1 <= nlen <= hlen,
            i <= hlen - nlen + 1,
            forall|k: int| 0 <= k < i ==> #[trigger] hay@.subrange(k, k + needle@.len())
                != needle@,
        decreases hlen - nlen - i + 1,
    {
        if matches_at(hay, needle, i) {
            assert(has_substring(hay@, needle@));
            return true;
        }
        i += 1;
    }
    false
}

/// `s` begins with `prefix`.
pub open spec fn has_prefix(s: Seq<char>, prefix: Seq<char>) -> bool {
    prefix.len() <= s.len() && s.subrange(0, prefix.len() as int) == prefix
}

/// Prefix test by direct character comparison.
pub fn starts_with_str(s: &str, prefix: &str) -> (r: bool)
    ensures
        r == has_prefix(s@, prefix@),
{
    let slen = s.unicode_len();
    let plen = prefix.unicode_len();
    if plen > slen {
        return false;
    }
    matches_at(s, prefix, 0)
}

/// The whitespace characters this library trims: space, tab, newline,
/// carriage return.
pub open spec fn is_ws_char(c: char) -> bool {
    c == ' ' || c == '\t' || c == '\n' || c == '\r'
}

/// Executable counterpart of `is_ws_char`.
pub fn is_ws(c: char) -> (r: bool)
    ensures
        r == is_ws_char(c),
{
    c == ' ' || c == '\t' || c == '\n' || c == '\r'
}

/// Number of whitespace characters at the front of `s`.
pub open spec fn count_leading_ws(s: Seq<char>) -> int
    decreases s.len(),
{
    if s.len() == 0 {
        0
    } else if !is_ws_char(s[0]) {
        0
    } else {
        1 + count_leading_ws(s.skip(1))
    }
}

/// Number of whitespace characters at the back of `s`.
pub open spec fn count_trailing_ws(s: Seq<char>) -> int
    decreases s.len(),
{
    if s.len() == 0 {
        0
    } else if !is_ws_char(s.last()) {
        0
    } else {
        1 + count_trailing_ws(s.drop_last())
    }
}

pub proof fn lemma_count_leading_ws(s: Seq<char>)
    ensures
        0 <= count_leading_ws(s) <= s.len(),
        forall|j: int| 0 <= j < count_leading_ws(s) ==> is_ws_char(s[j]),
        count_leading_ws(s) < s.len() ==> !is_ws_char(s[count_leading_ws(s)]),
    decreases s.len(),
{
    if s.len() == 0 {
    } else if !is_ws_char(s[0]) {
    } else {
        lemma_count_leading_ws(s.skip(1));
        assert forall|j: int| 0 <= j < count_leading_ws(s) implies is_ws_char(s[j]) by {
            if j >= 1 {
                assert(is_ws_char(s.skip(1)[j - 1]));
                assert(s.skip(1)[j - 1] == s[j]);
            }
        }
    }
}

pub proof fn lemma_count_trailing_ws(s: Seq<char>)
    ensures
        0 <= count_trailing_ws(s) <= s.len(),
        forall|j: int| s.len() - count_trailing_ws(s) <= j < s.len() ==> is_ws_char(s[j]),
        count_trailing_ws(s) < s.len() ==> !is_ws_char(s[s.len() - count_trailing_ws(s) - 1]),
    decreases s.len(),
{
    if s.len() == 0 {
    } else if !is_ws_char(s.last()) {
    } else {
        lemma_count_trailing_ws(s.drop_last());
        assert forall|j: int| s.len() - count_trailing_ws(s) <= j < s.len() implies is_ws_char(
            s[j],
        ) by {
            if j < s.len() - 1 {
                assert(is_ws_char(s.drop_last()[j]));
                assert(s.drop_last()[j] == s[j]);
            } else {
                assert(s[j] == s.last());
            }
        }
    }
}

/// `s` without leading and trailing whitespace.
pub open spec fn trim_spec(s: Seq<char>) -> Seq<char> {
    if count_leading_ws(s) == s.len() {
        Seq::empty()
    } else {
        s.subrange(count_leading_ws(s), s.len() - count_trailing_ws(s))
    }
}

/// Trim whitespace from both ends.
pub fn trim_str(s: &str) -> (r: String)
    ensures
        r@ == trim_spec(s@),
{
    proof {
        lemma_count_leading_ws(s@);
        lemma_count_trailing_ws(s@);
    }
    let len = s.unicode_len();
    let mut start: usize = 0;
    while start < len && is_ws(s.get_char(start))
        invariant
            len == s@.len(),
            start <= len,
            forall|j: int| 0 <= j < start ==> is_ws_char(s@[j]),
        decreases len - start,
    {
        start += 1;
    }
    if start == len {
        proof {
            lemma_count_leading_ws(s@);
        }
        return String::new();
    }
    proof {
        lemma_count_leading_ws(s@);
        assert(count_leading_ws(s@) == start);
    }
    let mut end: usize = len;
    while end > start && is_ws(s.get_char(end - 1))
        invariant
            len == s@.len(),
            start <= end <= len,
            start < len,
            !is_ws_char(s@[start as int]),
            forall|j: int| end <= j < len ==> is_ws_char(s@[j]),
        decreases end,
    {
        end -= 1;
    }
    proof {
        lemma_count_trailing_ws(s@);
        assert(count_trailing_ws(s@) == len - end);
    }
    let piece = s.substring_char(start, end);
    piece.to_owned()
}

/// The pieces of `s` between occurrences of `c`; occurrences are not kept,
/// empty pieces are.
pub open spec fn split_by(s: Seq<char>, c: char) -> Seq<Seq<char>>
    decreases s.len(),
{
    match first_index_of(s, c) {
        Some(i) => if 0 <= i < s.len() {
            seq![s.subrange(0, i)] + split_by(s.subrange(i + 1, s.len() as int), c)
        } else {
            seq![s]
        },
        None => seq![s],
    }
}

/// Split `s` at every occurrence of `c`.
pub fn split_str(s: &str, c: char) -> (r: Vec<String>)
    ensures
        r.deep_view() == split_by(s@, c),
    decreases s@.len(),
{
    proof {
        lemma_first_index_of(s@, c);
    }
    let len = s.unicode_len();
    match find_char(s, c) {
        None => {
            let mut v: Vec<String> = Vec::new();
            v.push(s.to_owned());
            proof {
                assert(v.deep_view() =~= split_by(s@, c));
            }
            v
        },
        Some(i) => {
            let head = s.substring_char(0, i).to_owned();
            let tail = s.substring_char(i + 1, len);
            let mut v: Vec<String> = Vec::new();
            v.push(head);
            let mut rest = split_str(tail, c);
            v.append(&mut rest);
            proof {
                assert(v.deep_view() =~= split_by(s@, c));
            }
            v
        },
    }
}

/// The pieces of `parts` glued back together with `sep` between them.
pub open spec fn join_with(parts: Seq<Seq<char>>, sep: Seq<char>) -> Seq<char>
    decreases parts.len(),
{
    if parts.len() == 0 {
        Seq::empty()
    } else if parts.len() == 1 {
        parts[0]
    } else {
        parts[0] + sep + join_with(parts.skip(1), sep)
    }
}

/// Join the elements of `v` from index `i` on, separated by `sep`.
fn join_from(v: &Vec<String>, i: usize, sep: &str) -> (r: String)
    requires
        i <= v.len(),
    ensures
        r@ == join_with(v.deep_view().skip(i as int), sep@),
    decreases v.len() - i,
{
    if i == v.len() {
        proof {
            assert(v.deep_view().skip(i as int) =~= Seq::<Seq<char>>::empty());
        }
        String::new()
    } else if i + 1 == v.len() {
        proof {
            assert(v.deep_view().skip(i as int).len() == 1);
            assert(v.deep_view().skip(i as int)[0] == v.deep_view()[i as int]);
        }
        v[i].clone()
    } else {
        let mut out = v[i].clone();
        out.append(sep);
        let rest = join_from(v, i + 1, sep);
        out.append(rest.as_str());
        proof {
            assert(v.deep_view().skip(i as int)[0] == v.deep_view()[i as int]);
            assert(v.deep_view().skip(i as int).skip(1) =~= v.deep_view().skip(i + 1));
        }
        out
    }
}

/// Join all elements of `v`, separated by `sep`.
pub fn join_str(v: &Vec<String>, sep: &str) -> (r: String)
    ensures
        r@ == join_with(v.deep_view(), sep@),
{
    let out = join_from(v, 0, sep);
    proof {
        assert(v.deep_view().skip(0) =~= v.deep_view());
    }
    out
}

} // verus!
