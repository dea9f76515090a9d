//! Verified character-level string operations: equality, prefix/suffix
//! tests, single-wildcard pattern matching and dot-joining, each stated
//! against a spec function over sequences of characters.

use vstd::prelude::*;
use vstd::string::StrSliceExecFns;
use vstd::string::StringExecFns;

verus! {

/// `p` is a prefix of `v`.
pub open spec fn spec_starts_with(v: Seq<char>, p: Seq<char>) -> bool {
    p.len() <= v.len() && v.take(p.len() as int) == p
}

/// `s` is a suffix of `v`.
pub open spec fn spec_ends_with(v: Seq<char>, s: Seq<char>) -> bool {
    s.len() <= v.len() && v.skip(v.len() - s.len()) == s
}

/// How many times `c` occurs in `s`.
pub open spec fn char_count(s: Seq<char>, c: char) -> nat
    decreases s.len(),
{
    if s.len() == 0 {
        0
    } else {
        char_count(s.drop_last(), c) + if s.last() == c {
            1nat
        } else {
            0nat
        }
    }
}

/// Index of the first occurrence of `c` in `s` (meaningful only when `s`
/// contains `c`).
pub open spec fn first_occurrence(s: Seq<char>, c: char) -> nat
    decreases s.len(),
{
    if s.len() == 0 {
        0
    } else if s[0] == c {
        0
    } else {
        1 + first_occurrence(s.drop_first(), c)
    }
}

/// A value matches a pattern with exactly one `*` when the part before the
/// `*` is a prefix of the value and the part after it is a suffix; any other
/// pattern matches only by exact equality.
pub open spec fn spec_matches_pattern(value: Seq<char>, pattern: Seq<char>) -> bool {
    if char_count(pattern, '*') == 1 {
        let i = first_occurrence(pattern, '*') as int;
        spec_starts_with(value, pattern.take(i)) && spec_ends_with(
            value,
            pattern.skip(i + 1),
        )
    } else {
        value == pattern
    }
}

/// With at least one occurrence of `c` present, the first occurrence is a
/// position of `s` and holds `c`, and no earlier position does.
pub proof fn lemma_first_occurrence_found(s: Seq<char>, c: char)
    requires
        char_count(s, c) >= 1,
    ensures
        first_occurrence(s, c) < s.len(),
        s[first_occurrence(s, c) as int] == c,
        forall|j: int| 0 <= j < first_occurrence(s, c) ==> s[j] != c,
    decreases s.len(),
{
    if s.len() > 0 {
        if s[0] != c {
            lemma_char_count_first(s, c);
            lemma_first_occurrence_found(s.drop_first(), c);
            assert forall|j: int| 0 <= j < first_occurrence(s, c) implies s[j] != c by {
                if j > 0 {
                    assert(s.drop_first()[j - 1] != c);
                }
            }
        }
    } else {
        assert(false);
    }
}

/// Counting from the front: the count over `s` splits into the first
/// character and the rest.
proof fn lemma_char_count_first(s: Seq<char>, c: char)
    requires
        s.len() > 0,
    ensures
        char_count(s, c) == char_count(s.drop_first(), c) + if s[0] == c {
            1nat
        } else {
            0nat
        },
    decreases s.len(),
{
    if s.len() > 1 {
        assert(s.drop_last().drop_first() =~= s.drop_first().drop_last());
        assert(s.drop_last()[0] == s[0]);
        assert(s.drop_first().last() == s.last());
        lemma_char_count_first(s.drop_last(), c);
        assert(char_count(s.drop_first(), c) == char_count(s.drop_first().drop_last(), c)
            + if s.drop_first().last() == c {
                1nat
            } else {
                0nat
            });
    } else {
        assert(s.drop_last().len() == 0);
        assert(s.drop_first().len() == 0);
        assert(char_count(s.drop_last(), c) == 0);
        assert(char_count(s.drop_first(), c) == 0);
        assert(s.last() == s[0]);
    }
}

/// The parts of `s` between occurrences of `c`: splitting a string with no
/// occurrence yields the one-part sequence of the string itself.
pub open spec fn spec_split(s: Seq<char>, c: char) -> Seq<Seq<char>>
    decreases s.len(),
    via spec_split_dec
{
    if char_count(s, c) == 0 {
        seq![s]
    } else {
        seq![s.take(first_occurrence(s, c) as int)] + spec_split(
            s.skip(first_occurrence(s, c) as int + 1),
            c,
        )
    }
}

#[via_fn]
proof fn spec_split_dec(s: Seq<char>, c: char) {
    if char_count(s, c) != 0 {
        lemma_first_occurrence_found(s, c);
    }
}

/// A split yields at least one part.
pub broadcast proof fn lemma_spec_split_len(s: Seq<char>, c: char)
    ensures
        (#[trigger] spec_split(s, c)).len() >= 1,
{
    if char_count(s, c) != 0 {
        lemma_first_occurrence_found(s, c);
    }
}

/// Split `s` at every occurrence of `c`.
pub fn split_char(s: &str, c: char) -> (r: Vec<String>)
    ensures
        r@.map_values(|p: String| p@) == spec_split(s@, c),
        r@.len() >= 1,
{
    let mut parts: Vec<String> = Vec::new();
    let mut rest: String = s.to_owned();
    while count_char(rest.as_str(), c) > 0
        invariant
            spec_split(s@, c) == parts@.map_values(|p: String| p@) + spec_split(rest@, c),
        decreases rest@.len(),
    {
        proof {
            lemma_first_occurrence_found(rest@, c);
        }
        let i = find_char(rest.as_str(), c);
        let len = rest.as_str().unicode_len();
        let head = substring(rest.as_str(), 0, i);
        let tail = substring(rest.as_str(), i + 1, len);
        let ghost parts0 = parts@;
        let ghost rest0 = rest@;
        parts.push(head);
        rest = tail;
        proof {
            assert(parts@.map_values(|p: String| p@) =~= parts0.map_values(|p: String| p@)
                + seq![rest0.take(first_occurrence(rest0, c) as int)]);
            assert(parts@.map_values(|p: String| p@) + spec_split(rest@, c) =~= parts0.map_values(
                |p: String| p@,
            ) + spec_split(rest0, c));
        }
    }
    let ghost parts0 = parts@;
    let ghost rest0 = rest@;
    parts.push(rest);
    proof {
        assert(parts@.map_values(|p: String| p@) =~= parts0.map_values(|p: String| p@)
            + seq![rest0]);
        assert(parts@.map_values(|p: String| p@) =~= spec_split(s@, c));
        lemma_spec_split_len(s@, c);
        assert(parts@.len() == parts@.map_values(|p: String| p@).len());
    }
    parts
}

/// The parts joined with a single `.` between consecutive parts.
pub open spec fn spec_join_dot(parts: Seq<Seq<char>>) -> Seq<char>
    decreases parts.len(),
{
    if parts.len() == 0 {
        Seq::empty()
    } else if parts.len() == 1 {
        parts[0]
    } else {
        spec_join_dot(parts.drop_last()) + seq!['.'] + parts.last()
    }
}

/// Character-for-character string equality.
pub fn str_eq(a: &str, b: &str) -> (r: bool)
    ensures
        r == (a@ == b@),
{
    let alen = a.unicode_len();
    let blen = b.unicode_len();
    if alen != blen {
        proof {
            assert(a@ != b@);
        }
        return false;
    }
    let mut i: usize = 0;
    while i < alen
        invariant
            alen == a@.len(),
            alen == b@.len(),
            0 <= i <= alen,
            forall|j: int| 0 <= j < i ==> a@[j] == b@[j],
        decreases alen - i,
    {
        if a.get_char(i) != b.get_char(i) {
            return false;
        }
        i += 1;
    }
    proof {
        assert(a@ =~= b@);
    }
    true
}

/// Whether `p` is a prefix of `v`.
pub fn starts_with(v: &str, p: &str) -> (r: bool)
    ensures
        r == spec_starts_with(v@, p@),
{
    let vlen = v.unicode_len();
    let plen = p.unicode_len();
    if plen > vlen {
        return false;
    }
    let mut i: usize = 0;
    while i < plen
        invariant
            vlen == v@.len(),
            plen == p@.len(),
            plen <= vlen,
            0 <= i <= plen,
            forall|j: int| 0 <= j < i ==> v@[j] == p@[j],
        decreases plen - i,
    {
        if v.get_char(i) != p.get_char(i) {
            proof {
                assert(v@.take(p@.len() as int)[i as int] != p@[i as int]);
            }
            return false;
        }
        i += 1;
    }
    proof {
        assert(v@.take(p@.len() as int) =~= p@);
    }
    true
}

/// Whether `s` is a suffix of `v`.
pub fn ends_with(v: &str, s: &str) -> (r: bool)
    ensures
        r == spec_ends_with(v@, s@),
{
    let vlen = v.unicode_len();
    let slen = s.unicode_len();
    if slen > vlen {
        return false;
    }
    let off = vlen - slen;
    let mut i: usize = 0;
    while i < slen
        invariant
            vlen == v@.len(),
            slen == s@.len(),
            slen <= vlen,
            off == vlen - slen,
            0 <= i <= slen,
            forall|j: int| 0 <= j < i ==> v@[off + j] == s@[j],
        decreases slen - i,
    {
        if v.get_char(off + i) != s.get_char(i) {
            proof {
                assert(v@.skip(v@.len() - s@.len())[i as int] != s@[i as int]);
            }
            return false;
        }
        i += 1;
    }
    proof {
        assert(v@.skip(v@.len() - s@.len()) =~= s@);
    }
    true
}

/// Count the occurrences of `c` in `s`.
pub fn count_char(s: &str, c: char) -> (r: usize)
    ensures
        r == char_count(s@, c),
{
    let len = s.unicode_len();
    let mut i: usize = 0;
    let mut n: usize = 0;
    while i < len
        invariant
            len == s@.len(),
            0 <= i <= len,
            n <= i,
            n == char_count(s@.take(i as int), c),
        decreases len - i,
    {
        proof {
            assert(s@.take(i + 1).drop_last() =~= s@.take(i as int));
            assert(s@.take(i + 1).last() == s@[i as int]);
        }
        if s.get_char(i) == c {
            n += 1;
        }
        i += 1;
    }
    proof {
        assert(s@.take(len as int) =~= s@);
    }
    n
}

/// Index of the first occurrence of `c` in `s`.
pub fn find_char(s: &str, c: char) -> (r: usize)
    requires
        char_count(s@, c) >= 1,
    ensures
        r == first_occurrence(s@, c),
        r < s@.len(),
        s@[r as int] == c,
{
    let len = s.unicode_len();
    let mut i: usize = 0;
    loop
        invariant
            len == s@.len(),
            0 <= i <= len,
            char_count(s@, c) >= 1,
            forall|j: int| 0 <= j < i ==> s@[j] != c,
            first_occurrence(s@, c) >= i,
        decreases len - i,
    {
        proof {
            if i == len {
                lemma_char_count_none(s@, c);
                assert(false);
            }
        }
        if s.get_char(i) == c {
            proof {
                lemma_first_occurrence_at(s@, c, i as int);
            }
            return i;
        }
        proof {
            lemma_first_occurrence_beyond(s@, c, i as int);
        }
        i += 1;
    }
}

/// A sequence with no occurrence of `c` has count zero.
proof fn lemma_char_count_none(s: Seq<char>, c: char)
    requires
        forall|j: int| 0 <= j < s.len() ==> s[j] != c,
    ensures
        char_count(s, c) == 0,
    decreases s.len(),
{
    if s.len() > 0 {
        lemma_char_count_none(s.drop_last(), c);
    }
}

/// If every position before `i` differs from `c` and position `i` is `c`,
/// the first occurrence is `i`.
proof fn lemma_first_occurrence_at(s: Seq<char>, c: char, i: int)
    requires
        0 <= i < s.len(),
        s[i] == c,
        forall|j: int| 0 <= j < i ==> s[j] != c,
    ensures
        first_occurrence(s, c) == i,
    decreases i,
{
    if i > 0 {
        lemma_first_occurrence_at(s.drop_first(), c, i - 1);
    }
}

/// If every position up to and including `i` differs from `c`, the first
/// occurrence lies beyond `i`.
proof fn lemma_first_occurrence_beyond(s: Seq<char>, c: char, i: int)
    requires
        0 <= i < s.len(),
        forall|j: int| 0 <= j <= i ==> s[j] != c,
    ensures
        first_occurrence(s, c) >= i + 1,
    decreases i,
{
    if i > 0 {
        lemma_first_occurrence_beyond(s.drop_first(), c, i - 1);
    }
}

/// The substring of `s` from `from` (inclusive) to `to` (exclusive), in
/// characters.
pub fn substring(s: &str, from: usize, to: usize) -> (r: String)
    requires
        from <= to <= s@.len(),
    ensures
        r@ == s@.subrange(from as int, to as int),
{
    s.substring_char(from, to).to_owned()
}

/// Join the parts with a `.` between consecutive parts.
pub fn join_dot(parts: &Vec<String>) -> (r: String)
    ensures
        r@ == spec_join_dot(parts@.map_values(|s: String| s@)),
{
    let ghost views = parts@.map_values(|s: String| s@);
    let mut out = String::new();
    let mut i: usize = 0;
    while i < parts.len()
        invariant
            views == parts@.map_values(|s: String| s@),
            0 <= i <= parts@.len(),
            out@ == spec_join_dot(views.take(i as int)),
        decreases parts@.len() - i,
    {
        if i > 0 {
            out.append(".");
            proof {
                reveal_strlit(".");
            }
        }
        out.append(parts[i].as_str());
        proof {
            assert(views.take(i + 1).drop_last() =~= views.take(i as int));
            assert(views.take(i + 1).last() == views[i as int]);
            if i == 0 {
                assert(out@ == spec_join_dot(views.take(1)));
            }
        }
        i += 1;
    }
    proof {
        assert(views.take(parts@.len() as int) =~= views);
    }
    out
}

/// Whether `value` matches `pattern`: if the pattern holds exactly one `*`,
/// the part before it must be a prefix of the value and the part after it a
/// suffix; any other pattern must equal the value exactly.
pub fn matches_pattern_str(value: &str, pattern: &str) -> (r: bool)
    ensures
        r == spec_matches_pattern(value@, pattern@),
{
    let stars = count_char(pattern, '*');
    if stars == 1 {
        let i = find_char(pattern, '*');
        let plen = pattern.unicode_len();
        let prefix = pattern.substring_char(0, i);
        let suffix = pattern.substring_char(i + 1, plen);
        proof {
            assert(prefix@ =~= pattern@.take(i as int));
            assert(suffix@ =~= pattern@.skip(i + 1));
        }
        starts_with(value, prefix) && ends_with(value, suffix)
    } else {
        str_eq(value, pattern)
    }
}

} // verus!
