//! Whitespace and trimming on text, over sequences of characters.

use vstd::prelude::*;

verus! {

/// Whether `c` is white space: a character with the Unicode property
/// `White_Space`.
pub open spec fn is_space(c: char) -> bool {
    let n = c as u32;
    ||| 0x09 <= n <= 0x0D
    ||| n == 0x20
    ||| n == 0x85
    ||| n == 0xA0
    ||| n == 0x1680
    ||| 0x2000 <= n <= 0x200A
    ||| n == 0x2028
    ||| n == 0x2029
    ||| n == 0x202F
    ||| n == 0x205F
    ||| n == 0x3000
}

/// How many characters of white space `s` begins with.
pub open spec fn leading_space(s: Seq<char>) -> nat
    decreases s.len(),
{
    if s.len() > 0 && is_space(s[0]) {
        1 + leading_space(s.drop_first())
    } else {
        0
    }
}

/// How many characters of white space `s` ends with.
pub open spec fn trailing_space(s: Seq<char>) -> nat
    decreases s.len(),
{
    if s.len() > 0 && is_space(s.last()) {
        1 + trailing_space(s.drop_last())
    } else {
        0
    }
}

/// `s` without the white space it begins with and the white space it ends with.
pub open spec fn trimmed(s: Seq<char>) -> Seq<char> {
    let rest = s.skip(leading_space(s) as int);
    rest.take(rest.len() - trailing_space(rest))
}

/// The leading white space of `s` ends at `k` when all before `k` is white space
/// and `k` is the end of `s` or holds another character.
pub proof fn lemma_leading_space_is(s: Seq<char>, k: int)
    requires
        0 <= k <= s.len(),
        forall|j: int| 0 <= j < k ==> is_space(#[trigger] s[j]),
        k == s.len() || !is_space(s[k]),
    ensures
        leading_space(s) == k,
    decreases k,
{
    if k > 0 {
        let rest = s.drop_first();
        assert forall|j: int| 0 <= j < k - 1 implies is_space(#[trigger] rest[j]) by {
            assert(rest[j] == s[j + 1]);
        }
        if k < s.len() {
            assert(rest[k - 1] == s[k]);
        }
        lemma_leading_space_is(rest, k - 1);
    }
}

/// The trailing white space of `s` begins at `k` when all from `k` on is white
/// space and `k` is the start of `s` or follows another character.
pub proof fn lemma_trailing_space_is(s: Seq<char>, k: int)
    requires
        0 <= k <= s.len(),
        forall|j: int| k <= j < s.len() ==> is_space(#[trigger] s[j]),
        k == 0 || !is_space(s[k - 1]),
    ensures
        trailing_space(s) == s.len() - k,
    decreases s.len() - k,
{
    if k < s.len() {
        let rest = s.drop_last();
        assert forall|j: int| k <= j < rest.len() implies is_space(#[trigger] rest[j]) by {
            assert(rest[j] == s[j]);
        }
        if k > 0 {
            assert(rest[k - 1] == s[k - 1]);
        }
        lemma_trailing_space_is(rest, k);
    }
}

/// The leading white space of `s` is white space, lies within `s`, and ends
/// where `s` ends or another character stands.
pub proof fn lemma_leading_space(s: Seq<char>)
    ensures
        leading_space(s) <= s.len(),
        forall|j: int| 0 <= j < leading_space(s) ==> is_space(#[trigger] s[j]),
        leading_space(s) < s.len() ==> !is_space(s[leading_space(s) as int]),
    decreases s.len(),
{
    if s.len() > 0 && is_space(s[0]) {
        let rest = s.drop_first();
        lemma_leading_space(rest);
        assert forall|j: int| 0 <= j < leading_space(s) implies is_space(#[trigger] s[j]) by {
            if j > 0 {
                assert(s[j] == rest[j - 1]);
            }
        }
        if leading_space(s) < s.len() {
            assert(s[leading_space(s) as int] == rest[leading_space(rest) as int]);
        }
    }
}

/// The trailing white space of `s` is white space, lies within `s`, and begins
/// where `s` begins or after another character.
pub proof fn lemma_trailing_space(s: Seq<char>)
    ensures
        trailing_space(s) <= s.len(),
        forall|j: int| s.len() - trailing_space(s) <= j < s.len() ==> is_space(#[trigger] s[j]),
        trailing_space(s) < s.len() ==> !is_space(s[s.len() - trailing_space(s) - 1]),
    decreases s.len(),
{
    if s.len() > 0 && is_space(s.last()) {
        let rest = s.drop_last();
        lemma_trailing_space(rest);
        assert forall|j: int| s.len() - trailing_space(s) <= j < s.len() implies is_space(
            #[trigger] s[j],
        ) by {
            if j < s.len() - 1 {
                assert(s[j] == rest[j]);
            }
        }
        if trailing_space(s) < s.len() {
            assert(s[s.len() - trailing_space(s) - 1] == rest[rest.len() - trailing_space(rest)
                - 1]);
        }
    }
}

/// Trimming cuts at the ends only: the result is one stretch of `s`, all before
/// it and all after it is white space, and it neither begins nor ends with
/// white space.
pub proof fn lemma_trimmed_is_the_core(s: Seq<char>)
    ensures
        exists|from: int, to: int|
            {
                &&& 0 <= from <= to <= s.len()
                &&& #[trigger] s.subrange(from, to) == trimmed(s)
                &&& forall|j: int| 0 <= j < from ==> is_space(#[trigger] s[j])
                &&& forall|j: int| to <= j < s.len() ==> is_space(#[trigger] s[j])
            },
        trimmed(s).len() > 0 ==> !is_space(trimmed(s).first()) && !is_space(trimmed(s).last()),
{
    let from = leading_space(s) as int;
    lemma_leading_space(s);
    let rest = s.skip(from);
    lemma_trailing_space(rest);
    let to = s.len() - trailing_space(rest);
    assert(trimmed(s) =~= s.subrange(from, to));
    assert forall|j: int| to <= j < s.len() implies is_space(#[trigger] s[j]) by {
        assert(s[j] == rest[j - from]);
    }
    if trimmed(s).len() > 0 {
        assert(trimmed(s).first() == s[from]);
        assert(trimmed(s).last() == rest[rest.len() - trailing_space(rest) - 1]);
    }
}

/// Text that neither begins nor ends with white space is its own trimming.
pub proof fn lemma_trimmed_of_core(s: Seq<char>)
    requires
        s.len() > 0 ==> !is_space(s.first()) && !is_space(s.last()),
    ensures
        trimmed(s) == s,
{
    assert(leading_space(s) == 0);
    assert(s.skip(0) =~= s);
    assert(trailing_space(s) == 0);
    assert(s.take(s.len() as int) =~= s);
}

/// Trimming what is trimmed changes nothing.
pub proof fn lemma_trimmed_twice(s: Seq<char>)
    ensures
        trimmed(trimmed(s)) == trimmed(s),
{
    lemma_trimmed_is_the_core(s);
    lemma_trimmed_of_core(trimmed(s));
}

/// Whether `c` is white space.
pub fn is_whitespace(c: char) -> (b: bool)
    ensures
        b == is_space(c),
{
    let n: u32 = c as u32;
    (0x09 <= n && n <= 0x0D) || n == 0x20 || n == 0x85 || n == 0xA0 || n == 0x1680 || (0x2000 <= n
        && n <= 0x200A) || n == 0x2028 || n == 0x2029 || n == 0x202F || n == 0x205F || n == 0x3000
}

/// `s` without leading and trailing white space.
pub fn trim<'a>(s: &'a str) -> (r: &'a str)
    ensures
        r@ == trimmed(s@),
{
    let n: usize = s.unicode_len();
    let mut start: usize = 0;
    while start < n
        invariant_except_break
            start <= n,
        invariant
            n == s@.len(),
            forall|j: int| 0 <= j < start ==> is_space(#[trigger] s@[j]),
        ensures
            start <= n,
            start == n || !is_space(s@[start as int]),
        decreases n - start,
    {
        if !is_whitespace(s.get_char(start)) {
            break;
        }
        start = start + 1;
    }
    let mut end: usize = n;
    while end > start
        invariant_except_break
            start <= end <= n,
        invariant
            n == s@.len(),
            forall|j: int| end <= j < n ==> is_space(#[trigger] s@[j]),
        ensures
            start <= end <= n,
            end == start || !is_space(s@[end - 1]),
        decreases end - start,
    {
        if !is_whitespace(s.get_char(end - 1)) {
            break;
        }
        end = end - 1;
    }
    proof {
        lemma_leading_space_is(s@, start as int);
        let rest = s@.skip(start as int);
        assert forall|j: int| end - start <= j < rest.len() implies is_space(#[trigger] rest[j]) by {
            assert(rest[j] == s@[j + start]);
        }
        if end > start {
            assert(rest[end - start - 1] == s@[end - 1]);
        }
        lemma_trailing_space_is(rest, end - start);
        assert(rest.take(end - start) =~= s@.subrange(start as int, end as int));
    }
    s.substring_char(start, end)
}

} // verus!
