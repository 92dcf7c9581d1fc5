//! Ordering of CRD schema versions of the form `v<N>`.

use std::cmp::Ordering;
use vstd::prelude::*;
use vstd::string::*;

verus! {

/// A version string that is not `v` followed by one or more decimal digits.
#[derive(Debug, PartialEq, Eq)]
pub struct InvalidVersion {
    /// The string that was refused.
    pub version: String,
}

/// `c` is one of `0` to `9`.
pub open spec fn is_digit(c: char) -> bool {
    '0' <= c <= '9'
}

/// The number that the digit `c` stands for.
pub open spec fn digit_value(c: char) -> nat {
    (c as nat - '0' as nat) as nat
}

/// The number written by `digits` in base ten; 0 for no digits.
pub open spec fn decimal_value(digits: Seq<char>) -> nat
    decreases digits.len(),
{
    if digits.len() == 0 {
        0
    } else {
        decimal_value(digits.drop_last()) * 10 + digit_value(digits.last())
    }
}

/// `s` is `v` followed by at least one digit and nothing else.
pub open spec fn is_version(s: Seq<char>) -> bool {
    &&& s.len() >= 2
    &&& s[0] == 'v'
    &&& forall|i: int| 1 <= i < s.len() ==> is_digit(#[trigger] s[i])
}

/// The number `N` of the version `v<N>`.
pub open spec fn version_number(s: Seq<char>) -> nat {
    decimal_value(s.skip(1))
}

/// How the natural number `a` stands to `b`.
pub open spec fn order_of(a: nat, b: nat) -> Ordering {
    if a < b {
        Ordering::Less
    } else if a == b {
        Ordering::Equal
    } else {
        Ordering::Greater
    }
}

/// -1, 0 or 1 as `a` is below, equal to or above `b`.
pub open spec fn sign_of(a: nat, b: nat) -> int {
    if a < b {
        -1
    } else if a == b {
        0
    } else {
        1
    }
}

fn digit_of(c: char) -> (d: u8)
    requires
        is_digit(c),
    ensures
        d == digit_value(c),
        d <= 9,
{
    (c as u32 - '0' as u32) as u8
}

/// Whether `s` is a version: `v` and then one or more digits.
pub fn is_valid_version(s: &str) -> (ok: bool)
    ensures
        ok == is_version(s@),
{
    let n: usize = s.unicode_len();
    if n < 2 {
        return false;
    }
    if s.get_char(0) != 'v' {
        return false;
    }
    let mut i: usize = 1;
    while i < n
        invariant
            1 <= i <= n,
            n == s@.len(),
            forall|j: int| 1 <= j < i ==> is_digit(#[trigger] s@[j]),
        decreases n - i,
    {
        let c: char = s.get_char(i);
        if !(c >= '0' && c <= '9') {
            return false;
        }
        i += 1;
    }
    true
}

/// The first `k` digits of the version `s`, as a number.
spec fn head_value(s: Seq<char>, k: int) -> nat {
    decimal_value(s.skip(1).take(k))
}

proof fn lemma_head_step(s: Seq<char>, k: int)
    requires
        0 <= k < s.len() - 1,
    ensures
        head_value(s, k + 1) == head_value(s, k) * 10 + digit_value(s[k + 1]),
        head_value(s, 0) == 0,
{
    let d = s.skip(1);
    assert(d.take(k + 1).drop_last() =~= d.take(k));
    assert(d.take(k + 1).last() == s[k + 1]);
}

/// Compares the numbers of two valid versions, digit by digit from the left, the
/// shorter one read as if zeros stood before it.
fn order_sign(a: &str, b: &str) -> (sign: i8)
    requires
        is_version(a@),
        is_version(b@),
    ensures
        sign == sign_of(version_number(a@), version_number(b@)),
{
    let na: usize = a.unicode_len() - 1;
    let nb: usize = b.unicode_len() - 1;
    let width: usize = if na >= nb { na } else { nb };
    let mut sign: i8 = 0;
    let mut i: usize = 0;
    proof {
        lemma_head_step(a@, 0);
        lemma_head_step(b@, 0);
    }
    while i < width
        invariant
            0 <= i <= width,
            na == a@.len() - 1,
            nb == b@.len() - 1,
            na >= 1,
            nb >= 1,
            width == if na >= nb { na } else { nb },
            is_version(a@),
            is_version(b@),
            sign == sign_of(
                head_value(a@, if i + na >= width { i + na - width } else { 0 }),
                head_value(b@, if i + nb >= width { i + nb - width } else { 0 }),
            ),
        decreases width - i,
    {
        let ghost ka: int = if i + na >= width { i + na - width } else { 0 };
        let ghost kb: int = if i + nb >= width { i + nb - width } else { 0 };
        let mut da: u8 = 0;
        let mut db: u8 = 0;
        if i >= width - na {
            let c: char = a.get_char(i - (width - na) + 1);
            da = digit_of(c);
            proof {
                lemma_head_step(a@, ka);
            }
        }
        if i >= width - nb {
            let c: char = b.get_char(i - (width - nb) + 1);
            db = digit_of(c);
            proof {
                lemma_head_step(b@, kb);
            }
        }
        if sign == 0 {
            if da < db {
                sign = -1;
            } else if da > db {
                sign = 1;
            }
        }
        i += 1;
    }
    assert(a@.skip(1).take(na as int) =~= a@.skip(1));
    assert(b@.skip(1).take(nb as int) =~= b@.skip(1));
    sign
}

/// Compares two CRD versions by their numbers.
///
/// Fails when either string is not a version, naming the first that is not.
pub fn compare_versions(version1: &str, version2: &str) -> (result: Result<Ordering, InvalidVersion>)
    ensures
        match result {
            Ok(order) => {
                &&& is_version(version1@)
                &&& is_version(version2@)
                &&& order == order_of(version_number(version1@), version_number(version2@))
            },
            Err(e) => {
                &&& !is_version(version1@) || !is_version(version2@)
                &&& e.version@ == if !is_version(version1@) {
                    version1@
                } else {
                    version2@
                }
            },
        },
{
    if !is_valid_version(version1) {
        return Err(InvalidVersion { version: String::from_str(version1) });
    }
    if !is_valid_version(version2) {
        return Err(InvalidVersion { version: String::from_str(version2) });
    }
    let sign: i8 = order_sign(version1, version2);
    if sign < 0 {
        Ok(Ordering::Less)
    } else if sign == 0 {
        Ok(Ordering::Equal)
    } else {
        Ok(Ordering::Greater)
    }
}

/// Of two versions exactly one thing holds: the first is lower, the two are equal in
/// number, or the first is higher. Which one holds goes by their numbers.
pub proof fn lemma_order_is_total(a: Seq<char>, b: Seq<char>)
    requires
        is_version(a),
        is_version(b),
    ensures
        order_of(version_number(a), version_number(b)) == Ordering::Less <==> version_number(a)
            < version_number(b),
        order_of(version_number(a), version_number(b)) == Ordering::Equal <==> version_number(a)
            == version_number(b),
        order_of(version_number(a), version_number(b)) == Ordering::Greater <==> version_number(a)
            > version_number(b),
        order_of(version_number(a), version_number(b)) != Ordering::Less || order_of(
            version_number(a),
            version_number(b),
        ) != Ordering::Equal,
        order_of(version_number(a), version_number(b)) != Ordering::Less || order_of(
            version_number(a),
            version_number(b),
        ) != Ordering::Greater,
        order_of(version_number(a), version_number(b)) != Ordering::Equal || order_of(
            version_number(a),
            version_number(b),
        ) != Ordering::Greater,
{
}

/// Turning the two versions round turns the order round.
pub proof fn lemma_order_turns_round(a: Seq<char>, b: Seq<char>)
    requires
        is_version(a),
        is_version(b),
    ensures
        order_of(version_number(b), version_number(a)) == match order_of(
            version_number(a),
            version_number(b),
        ) {
            Ordering::Less => Ordering::Greater,
            Ordering::Equal => Ordering::Equal,
            Ordering::Greater => Ordering::Less,
        },
{
}

/// The order of versions carries over: what is not above a version that is not above
/// a third is not above the third.
pub proof fn lemma_order_carries_over(a: Seq<char>, b: Seq<char>, c: Seq<char>)
    requires
        is_version(a),
        is_version(b),
        is_version(c),
        order_of(version_number(a), version_number(b)) != Ordering::Greater,
        order_of(version_number(b), version_number(c)) != Ordering::Greater,
    ensures
        order_of(version_number(a), version_number(c)) != Ordering::Greater,
        order_of(version_number(a), version_number(c)) == Ordering::Equal ==> order_of(
            version_number(a),
            version_number(b),
        ) == Ordering::Equal,
{
}

} // verus!
