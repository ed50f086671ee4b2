//! Character-level scanning used by the progress-line parsers.
use vstd::prelude::*;

verus! {

/// `needle` occurs in `hay` at position `i`.
pub open spec fn occurs_at(hay: Seq<char>, needle: Seq<char>, i: int) -> bool {
    0 <= i && i + needle.len() <= hay.len() && hay.subrange(i, i + needle.len()) == needle
}

/// `needle` occurs somewhere in `hay`.
pub open spec fn contains_seq(hay: Seq<char>, needle: Seq<char>) -> bool {
    exists|i: int| #[trigger] occurs_at(hay, needle, i)
}

/// The first occurrence of `needle` in `hay` at or after `from`, if any.
pub open spec fn first_occurrence(hay: Seq<char>, needle: Seq<char>, from: int) -> Option<int>
    decreases hay.len() + 1 - from,
{
    if from < 0 || from + needle.len() > hay.len() {
        None
    } else if occurs_at(hay, needle, from) {
        Some(from)
    } else {
        first_occurrence(hay, needle, from + 1)
    }
}

/// The characters that Rust's `char::is_whitespace` accepts (Unicode `White_Space`).
pub open spec fn is_space(c: char) -> bool {
    ('\u{9}' <= c && c <= '\u{d}') || c == ' ' || c == '\u{85}' || c == '\u{a0}' || c
        == '\u{1680}' || ('\u{2000}' <= c && c <= '\u{200a}') || c == '\u{2028}' || c
        == '\u{2029}' || c == '\u{202f}' || c == '\u{205f}' || c == '\u{3000}'
}

pub open spec fn is_digit(c: char) -> bool {
    '0' <= c && c <= '9'
}

/// The decimal value of a run of digits.
pub open spec fn digits_value(s: Seq<char>) -> nat
    decreases s.len(),
{
    if s.len() == 0 {
        0
    } else {
        10 * digits_value(s.drop_last()) + (s.last() as nat - '0' as nat) as nat
    }
}

/// A value clamped to what a `u64` holds.
pub open spec fn capped(v: nat) -> u64 {
    if v > u64::MAX {
        u64::MAX
    } else {
        v as u64
    }
}

/// Every character of `s[from..to]` is a decimal digit.
pub open spec fn all_digits(s: Seq<char>, from: int, to: int) -> bool {
    forall|k: int| from <= k < to ==> is_digit(#[trigger] s[k])
}

/// The first position in `[from, to)` holding a character other than white space,
/// or `to`.
pub open spec fn skip_spaces_spec(s: Seq<char>, from: int, to: int) -> int
    decreases to - from,
{
    if from >= to {
        to
    } else if !is_space(s[from]) {
        from
    } else {
        skip_spaces_spec(s, from + 1, to)
    }
}

/// The first position in `[from, to)` holding white space, or `to`.
pub open spec fn run_end_spec(s: Seq<char>, from: int, to: int) -> int
    decreases to - from,
{
    if from >= to {
        to
    } else if is_space(s[from]) {
        from
    } else {
        run_end_spec(s, from + 1, to)
    }
}

/// The first position in `[from, to)` holding a character other than a digit, or `to`.
pub open spec fn digits_end_spec(s: Seq<char>, from: int, to: int) -> int
    decreases to - from,
{
    if from >= to {
        to
    } else if !is_digit(s[from]) {
        from
    } else {
        digits_end_spec(s, from + 1, to)
    }
}

/// The digits of `s[from..to]` read as a count, clamped to `u64`; `None` unless the
/// range is a non-empty run of digits.
pub open spec fn count_spec(s: Seq<char>, from: int, to: int) -> Option<u64> {
    if from < to && all_digits(s, from, to) {
        Some(capped(digits_value(s.subrange(from, to))))
    } else {
        None
    }
}

pub fn is_space_char(c: char) -> (r: bool)
    ensures
        r == is_space(c),
{
    ('\u{9}' <= c && c <= '\u{d}') || c == ' ' || c == '\u{85}' || c == '\u{a0}' || c
        == '\u{1680}' || ('\u{2000}' <= c && c <= '\u{200a}') || c == '\u{2028}' || c
        == '\u{2029}' || c == '\u{202f}' || c == '\u{205f}' || c == '\u{3000}'
}

/// The first position in `[from, to)` that is not white space, or `to`.
pub fn skip_spaces(s: &Vec<char>, from: usize, to: usize) -> (r: usize)
    requires
        from <= to <= s@.len(),
    ensures
        r == skip_spaces_spec(s@, from as int, to as int),
        from <= r <= to,
{
    let mut i = from;
    while i < to && is_space_char(s[i])
        invariant
            from <= i <= to <= s@.len(),
            skip_spaces_spec(s@, from as int, to as int) == skip_spaces_spec(s@, i as int, to as int),
        decreases to - i,
    {
        i = i + 1;
    }
    i
}

/// The first position in `[from, to)` that is white space, or `to`.
pub fn run_end(s: &Vec<char>, from: usize, to: usize) -> (r: usize)
    requires
        from <= to <= s@.len(),
    ensures
        r == run_end_spec(s@, from as int, to as int),
        from <= r <= to,
{
    let mut i = from;
    while i < to && !is_space_char(s[i])
        invariant
            from <= i <= to <= s@.len(),
            run_end_spec(s@, from as int, to as int) == run_end_spec(s@, i as int, to as int),
        decreases to - i,
    {
        i = i + 1;
    }
    i
}

/// The first position in `[from, to)` that is not a digit, or `to`.
pub fn digits_end(s: &Vec<char>, from: usize, to: usize) -> (r: usize)
    requires
        from <= to <= s@.len(),
    ensures
        r == digits_end_spec(s@, from as int, to as int),
        from <= r <= to,
        all_digits(s@, from as int, r as int),
{
    let mut i = from;
    while i < to && '0' <= s[i] && s[i] <= '9'
        invariant
            from <= i <= to <= s@.len(),
            digits_end_spec(s@, from as int, to as int) == digits_end_spec(s@, i as int, to as int),
            all_digits(s@, from as int, i as int),
        decreases to - i,
    {
        i = i + 1;
    }
    i
}

proof fn lemma_capped_step(v: nat, acc: u64, d: nat)
    requires
        acc == capped(v),
        d <= 9,
    ensures
        acc < u64::MAX ==> v == acc,
        acc == u64::MAX ==> capped(10 * v + d) == u64::MAX,
        acc < u64::MAX && 10 * acc + d > u64::MAX ==> capped(10 * v + d) == u64::MAX,
{
}

/// The digits of `s[from..to]` read as a count, clamped to `u64`.
pub fn parse_count(s: &Vec<char>, from: usize, to: usize) -> (r: Option<u64>)
    requires
        from <= to <= s@.len(),
    ensures
        r == count_spec(s@, from as int, to as int),
{
    if from == to {
        return None;
    }
    let mut acc: u64 = 0;
    let mut i = from;
    assert(s@.subrange(from as int, from as int) =~= Seq::<char>::empty());
    while i < to
        invariant
            from <= i <= to <= s@.len(),
            all_digits(s@, from as int, i as int),
            acc == capped(digits_value(s@.subrange(from as int, i as int))),
        decreases to - i,
    {
        let c = s[i];
        if !('0' <= c && c <= '9') {
            return None;
        }
        let d = (c as u32 - '0' as u32) as u64;
        let ghost v = digits_value(s@.subrange(from as int, i as int));
        proof {
            let next = s@.subrange(from as int, i + 1);
            assert(next.drop_last() =~= s@.subrange(from as int, i as int));
            assert(next.last() == c);
            assert(digits_value(next) == 10 * v + d);
            lemma_capped_step(v, acc, d as nat);
        }
        acc = match acc.checked_mul(10) {
            Some(m) => match m.checked_add(d) {
                Some(x) => x,
                None => u64::MAX,
            },
            None => u64::MAX,
        };
        i = i + 1;
    }
    Some(acc)
}

/// The characters of a string slice.
pub fn chars_of(s: &str) -> (r: Vec<char>)
    ensures
        r@ == s@,
{
    let n = s.unicode_len();
    let mut r: Vec<char> = Vec::new();
    let mut i: usize = 0;
    while i < n
        invariant
            n == s@.len(),
            i <= n,
            r@ == s@.subrange(0, i as int),
        decreases n - i,
    {
        r.push(s.get_char(i));
        i = i + 1;
    }
    assert(r@ =~= s@);
    r
}

/// Whether `needle` occurs in `hay` at position `i`.
pub fn matches_at(hay: &Vec<char>, needle: &str, i: usize) -> (r: bool)
    ensures
        r == occurs_at(hay@, needle@, i as int),
{
    let n = needle.unicode_len();
    if i > hay.len() || n > hay.len() - i {
        return false;
    }
    let mut k: usize = 0;
    while k < n
        invariant
            n == needle@.len(),
            i + n <= hay@.len(),
            i <= hay@.len(),
            hay@.len() <= usize::MAX,
            k <= n,
            forall|j: int| 0 <= j < k ==> hay@[i + j] == needle@[j],
        decreases n - k,
    {
        if hay[i + k] != needle.get_char(k) {
            assert(hay@.subrange(i as int, i + n)[k as int] != needle@[k as int]);
            return false;
        }
        k = k + 1;
    }
    assert(hay@.subrange(i as int, i + n) =~= needle@);
    true
}

/// The first occurrence of `needle` in `hay` at or after `from`.
pub fn find_from(hay: &Vec<char>, needle: &str, from: usize) -> (r: Option<usize>)
    ensures
        r matches Some(i) ==> first_occurrence(hay@, needle@, from as int) == Some(i as int),
        r is None ==> first_occurrence(hay@, needle@, from as int) is None,
        r matches Some(i) ==> from <= i <= hay@.len(),
{
    let n = needle.unicode_len();
    if from > hay.len() || n > hay.len() - from {
        return None;
    }
    let last = hay.len() - n;
    let mut i: usize = from;
    loop
        invariant
            n == needle@.len(),
            last == hay@.len() - n,
            from <= i <= last,
            first_occurrence(hay@, needle@, from as int) == first_occurrence(
                hay@,
                needle@,
                i as int,
            ),
        decreases last - i,
    {
        if matches_at(hay, needle, i) {
            return Some(i);
        }
        if i == last {
            assert(first_occurrence(hay@, needle@, i + 1) is None);
            return None;
        }
        i = i + 1;
    }
}

/// Whether `needle` occurs anywhere in `hay`.
pub fn contains(hay: &Vec<char>, needle: &str) -> (r: bool)
    ensures
        r == contains_seq(hay@, needle@),
{
    let r = find_from(hay, needle, 0);
    proof {
        lemma_first_occurrence(hay@, needle@, 0);
    }
    r.is_some()
}

/// `first_occurrence` finds an occurrence exactly when there is one from `from` on.
pub proof fn lemma_first_occurrence(hay: Seq<char>, needle: Seq<char>, from: int)
    requires
        0 <= from,
    ensures
        first_occurrence(hay, needle, from) is Some <==> exists|i: int|
            from <= i && #[trigger] occurs_at(hay, needle, i),
        first_occurrence(hay, needle, from) matches Some(i) ==> from <= i && occurs_at(
            hay,
            needle,
            i,
        ),
    decreases hay.len() + 1 - from,
{
    if from + needle.len() > hay.len() {
        assert forall|i: int| from <= i implies !#[trigger] occurs_at(hay, needle, i) by {}
    } else if !occurs_at(hay, needle, from) {
        lemma_first_occurrence(hay, needle, from + 1);
        assert forall|i: int| from <= i && #[trigger] occurs_at(hay, needle, i) implies from + 1
            <= i by {}
    }
}

} // verus!
