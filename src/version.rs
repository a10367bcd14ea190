//! The ordering of version strings used to decide whether a release is newer
//! than what the registry holds.
//!
//! A version is split on `.`; each piece is read as an `i32` (a piece that is
//! not one counts as `0`). Pieces are compared in order over the shorter
//! sequence, and if all of those are equal the shorter sequence is the
//! smaller one, so `"1.2"` comes before `"1.2.0"`.

use crate::text::{chars_of, lemma_split_on_step, split_on};
use std::cmp::Ordering;
use vstd::prelude::*;

verus! {

pub open spec fn is_digit(c: char) -> bool {
    '0' <= c && c <= '9'
}

pub open spec fn digit_value(c: char) -> int {
    (c as int) - ('0' as int)
}

/// The number that a string of decimal digits spells.
pub open spec fn digits_value(d: Seq<char>) -> int
    decreases d.len(),
{
    if d.len() == 0 {
        0
    } else {
        10 * digits_value(d.drop_last()) + digit_value(d.last())
    }
}

pub open spec fn all_digits(d: Seq<char>) -> bool {
    d.len() > 0 && forall|i: int| 0 <= i < d.len() ==> is_digit(#[trigger] d[i])
}

/// The integer that `c` spells as a decimal literal with an optional sign.
pub open spec fn integer_literal(c: Seq<char>) -> Option<int> {
    if c.len() > 0 && c[0] == '-' && all_digits(c.drop_first()) {
        Some(-digits_value(c.drop_first()))
    } else if c.len() > 0 && c[0] == '+' && all_digits(c.drop_first()) {
        Some(digits_value(c.drop_first()))
    } else if all_digits(c) {
        Some(digits_value(c))
    } else {
        None
    }
}

/// The value of one version component: the `i32` it spells, else `0`.
pub open spec fn component_value(c: Seq<char>) -> int {
    match integer_literal(c) {
        Some(v) => if i32::MIN <= v <= i32::MAX {
            v
        } else {
            0
        },
        None => 0,
    }
}

/// The integer components of a version string.
pub open spec fn version_parts(s: Seq<char>) -> Seq<int> {
    split_on(s, '.').map_values(|c: Seq<char>| component_value(c))
}

pub open spec fn compare_ints(a: int, b: int) -> Ordering {
    if a < b {
        Ordering::Less
    } else if a > b {
        Ordering::Greater
    } else {
        Ordering::Equal
    }
}

/// Component-wise comparison; when one sequence runs out, the shorter is less.
pub open spec fn compare_parts(a: Seq<int>, b: Seq<int>) -> Ordering
    decreases a.len(),
{
    if a.len() == 0 || b.len() == 0 {
        compare_ints(a.len() as int, b.len() as int)
    } else if a[0] != b[0] {
        compare_ints(a[0], b[0])
    } else {
        compare_parts(a.drop_first(), b.drop_first())
    }
}

pub open spec fn version_cmp(a: Seq<char>, b: Seq<char>) -> Ordering {
    compare_parts(version_parts(a), version_parts(b))
}

pub open spec fn reversed(o: Ordering) -> Ordering {
    match o {
        Ordering::Less => Ordering::Greater,
        Ordering::Equal => Ordering::Equal,
        Ordering::Greater => Ordering::Less,
    }
}

proof fn lemma_digits_value_step(d: Seq<char>, c: char)
    requires
        is_digit(c),
        digits_value(d) >= 0,
    ensures
        digits_value(d.push(c)) == 10 * digits_value(d) + digit_value(c),
        digits_value(d.push(c)) >= digits_value(d),
{
    assert(d.push(c).drop_last() =~= d);
}

/// Reads one component the way `str::parse::<i32>` does, with `0` for a
/// component that does not parse.
pub fn parse_component(c: &Vec<char>) -> (r: i32)
    ensures
        r as int == component_value(c@),
{
    let n = c.len();
    let mut start: usize = 0;
    let mut negative = false;
    if n > 0 && (c[0] == '-' || c[0] == '+') {
        start = 1;
        negative = c[0] == '-';
    }
    if start == n {
        proof {
            if n > 0 {
                assert(!is_digit(c@[0]));
            }
        }
        return 0;
    }
    let ghost digits = c@.subrange(start as int, n as int);
    assert(start == 1 ==> digits =~= c@.drop_first());
    assert(start == 0 ==> digits =~= c@);
    let mut acc: u64 = 0;
    let mut over = false;
    let mut i: usize = start;
    while i < n
        invariant
            start <= i <= n,
            n == c@.len(),
            start <= 1,
            start == 1 <==> (n > 0 && (c@[0] == '-' || c@[0] == '+')),
            negative == (start == 1 && c@[0] == '-'),
            digits == c@.subrange(start as int, n as int),
            forall|j: int| start <= j < i ==> is_digit(#[trigger] c@[j]),
            digits_value(c@.subrange(start as int, i as int)) >= 0,
            !over ==> acc == digits_value(c@.subrange(start as int, i as int)),
            !over ==> acc <= 2147483648,
            over ==> digits_value(c@.subrange(start as int, i as int)) > 2147483648,
        decreases n - i,
    {
        let ch = c[i];
        if !('0' <= ch && ch <= '9') {
            proof {
                assert(!is_digit(digits[i - start]));
                assert(!is_digit(c@[i as int]));
            }
            return 0;
        }
        let ghost prev = c@.subrange(start as int, i as int);
        proof {
            assert(c@.subrange(start as int, i + 1) =~= prev.push(ch));
            lemma_digits_value_step(prev, ch);
        }
        if !over {
            let d = (ch as u32 - '0' as u32) as u64;
            let next = acc * 10 + d;
            if next > 2147483648 {
                over = true;
            } else {
                acc = next;
            }
        }
        i = i + 1;
    }
    assert(c@.subrange(start as int, n as int) == digits);
    proof {
        assert(all_digits(digits)) by {
            assert forall|k: int| 0 <= k < digits.len() implies is_digit(#[trigger] digits[k]) by {
                assert(digits[k] == c@[start + k]);
            }
        }
        if start == 0 {
            assert(c@.len() > 0 && c@[0] != '-' && c@[0] != '+');
        }
    }
    if over {
        0
    } else if negative {
        -(acc as i64) as i32
    } else if acc <= 2147483647 {
        acc as i32
    } else {
        0
    }
}

proof fn lemma_parts_push(parts: Seq<i32>, done: Seq<Seq<char>>, v: i32, cur: Seq<char>)
    requires
        parts.map_values(|x: i32| x as int) == done.map_values(|c: Seq<char>| component_value(c)),
        v as int == component_value(cur),
    ensures
        parts.push(v).map_values(|x: i32| x as int) == done.push(cur).map_values(
            |c: Seq<char>| component_value(c),
        ),
{
    assert(parts.push(v).map_values(|x: i32| x as int) =~= parts.map_values(|x: i32| x as int).push(
        v as int,
    ));
    assert(done.push(cur).map_values(|c: Seq<char>| component_value(c)) =~= done.map_values(
        |c: Seq<char>| component_value(c),
    ).push(component_value(cur)));
}

/// The integer components of `s`.
pub fn version_components(s: &str) -> (r: Vec<i32>)
    ensures
        r@.map_values(|x: i32| x as int) == version_parts(s@),
{
    let chars = chars_of(s);
    let mut parts: Vec<i32> = Vec::new();
    let mut current: Vec<char> = Vec::new();
    let ghost done: Seq<Seq<char>> = Seq::empty();
    let mut i: usize = 0;
    while i < chars.len()
        invariant
            i <= chars@.len(),
            chars@ == s@,
            split_on(chars@.take(i as int), '.') == done.push(current@),
            parts@.map_values(|x: i32| x as int) == done.map_values(
                |c: Seq<char>| component_value(c),
            ),
        decreases chars@.len() - i,
    {
        proof {
            lemma_split_on_step(chars@, i as int, '.');
        }
        let ch = chars[i];
        if ch == '.' {
            let v = parse_component(&current);
            proof {
                lemma_parts_push(parts@, done, v, current@);
                done = done.push(current@);
            }
            parts.push(v);
            current = Vec::new();
            assert(split_on(chars@.take(i + 1), '.') =~= done.push(current@));
        } else {
            current.push(ch);
            assert(split_on(chars@.take(i + 1), '.') =~= done.push(current@));
        }
        i = i + 1;
    }
    let v = parse_component(&current);
    proof {
        lemma_parts_push(parts@, done, v, current@);
        assert(chars@.take(i as int) =~= s@);
    }
    parts.push(v);
    parts
}

/// Orders two version strings as described at the top of this module.
pub fn compare_by_semver(a: &str, b: &str) -> (r: Ordering)
    ensures
        r == version_cmp(a@, b@),
{
    let a_parts = version_components(a);
    let b_parts = version_components(b);
    let ghost pa = version_parts(a@);
    let ghost pb = version_parts(b@);
    assert(a_parts@.len() == pa.len() && b_parts@.len() == pb.len()) by {
        assert(a_parts@.map_values(|x: i32| x as int).len() == a_parts@.len());
        assert(b_parts@.map_values(|x: i32| x as int).len() == b_parts@.len());
    }
    let len = if a_parts.len() < b_parts.len() {
        a_parts.len()
    } else {
        b_parts.len()
    };
    let mut i: usize = 0;
    assert(pa.skip(0) =~= pa && pb.skip(0) =~= pb);
    while i < len
        invariant
            i <= len,
            len <= a_parts@.len(),
            len <= b_parts@.len(),
            len == a_parts@.len() || len == b_parts@.len(),
            a_parts@.len() == pa.len(),
            b_parts@.len() == pb.len(),
            forall|j: int| 0 <= j < pa.len() ==> pa[j] == a_parts@[j] as int,
            forall|j: int| 0 <= j < pb.len() ==> pb[j] == b_parts@[j] as int,
            version_cmp(a@, b@) == compare_parts(pa.skip(i as int), pb.skip(i as int)),
        decreases len - i,
    {
        let x = a_parts[i];
        let y = b_parts[i];
        assert(pa.skip(i as int)[0] == x && pb.skip(i as int)[0] == y);
        if x < y {
            return Ordering::Less;
        }
        if x > y {
            return Ordering::Greater;
        }
        assert(pa.skip(i as int).drop_first() =~= pa.skip(i + 1));
        assert(pb.skip(i as int).drop_first() =~= pb.skip(i + 1));
        i = i + 1;
    }
    if a_parts.len() < b_parts.len() {
        Ordering::Less
    } else if a_parts.len() > b_parts.len() {
        Ordering::Greater
    } else {
        Ordering::Equal
    }
}

proof fn lemma_compare_parts_antisymmetric(a: Seq<int>, b: Seq<int>)
    ensures
        compare_parts(a, b) == reversed(compare_parts(b, a)),
        (compare_parts(a, b) == Ordering::Equal) == (a == b),
    decreases a.len(),
{
    if a.len() == 0 || b.len() == 0 {
        if a.len() == 0 && b.len() == 0 {
            assert(a =~= b);
        }
    } else if a[0] == b[0] {
        lemma_compare_parts_antisymmetric(a.drop_first(), b.drop_first());
        if a.drop_first() == b.drop_first() {
            assert forall|i: int| 0 <= i < a.len() implies a[i] == b[i] by {
                if i > 0 {
                    assert(a[i] == a.drop_first()[i - 1]);
                    assert(b[i] == b.drop_first()[i - 1]);
                }
            }
            assert(a =~= b);
        }
    }
}

proof fn lemma_compare_parts_transitive(a: Seq<int>, b: Seq<int>, c: Seq<int>)
    requires
        compare_parts(a, b) == Ordering::Less,
        compare_parts(b, c) == Ordering::Less,
    ensures
        compare_parts(a, c) == Ordering::Less,
    decreases a.len(),
{
    if a.len() > 0 && b.len() > 0 && c.len() > 0 && a[0] == b[0] && b[0] == c[0] {
        lemma_compare_parts_transitive(a.drop_first(), b.drop_first(), c.drop_first());
    }
}

/// The version ordering is antisymmetric: swapping the arguments reverses the
/// answer, and two versions compare equal exactly when their integer
/// components are the same sequence.
pub proof fn lemma_version_cmp_antisymmetric(a: Seq<char>, b: Seq<char>)
    ensures
        version_cmp(a, b) == reversed(version_cmp(b, a)),
        version_cmp(a, b) == Ordering::Equal <==> version_parts(a) == version_parts(b),
{
    lemma_compare_parts_antisymmetric(version_parts(a), version_parts(b));
}

/// The version ordering is transitive, so together with antisymmetry it is a
/// total order on component sequences.
pub proof fn lemma_version_cmp_transitive(a: Seq<char>, b: Seq<char>, c: Seq<char>)
    requires
        version_cmp(a, b) == Ordering::Less,
        version_cmp(b, c) == Ordering::Less,
    ensures
        version_cmp(a, c) == Ordering::Less,
{
    lemma_compare_parts_transitive(version_parts(a), version_parts(b), version_parts(c));
}

} // verus!
