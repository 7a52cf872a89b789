//! Finding a city in the city list by its population rank.

use vstd::prelude::*;

use rand::Rng;

use crate::error::AppError;

verus! {

/// The lowest population rank in the city list.
pub const FIRST_CITY_RANK: u32 = 1;

/// The highest population rank in the city list.
pub const LAST_CITY_RANK: u32 = 1000;

/// Relies on rand's thread_rng().gen_range(lo..=hi): a number between `lo`
/// and `hi`, both included. The range must not be empty.
#[verifier::external_body]
fn random_between(lo: u32, hi: u32) -> (r: u32)
    requires
        lo <= hi,
    ensures
        lo <= r <= hi,
{
    rand::thread_rng().gen_range(lo..=hi)
}

/// Every character is a decimal digit.
pub open spec fn all_digits(s: Seq<char>) -> bool {
    forall|i: int| 0 <= i < s.len() ==> '0' <= #[trigger] s[i] <= '9'
}

/// The number that decimal digits `s` spell.
pub open spec fn digits_value(s: Seq<char>) -> int
    decreases s.len(),
{
    if s.len() == 0 {
        0
    } else {
        digits_value(s.drop_last()) * 10 + (s.last() as int - '0' as int)
    }
}

/// The rank that `s` spells: one or more decimal digits whose value fits
/// in 32 bits.
pub open spec fn rank_value(s: Seq<char>) -> Option<u32> {
    if s.len() > 0 && all_digits(s) && digits_value(s) <= u32::MAX {
        Some(digits_value(s) as u32)
    } else {
        None
    }
}

proof fn lemma_digits_value_grows(s: Seq<char>, i: int)
    requires
        0 <= i < s.len(),
        all_digits(s),
    ensures
        digits_value(s.take(i)) <= digits_value(s.take(i + 1)),
        digits_value(s.take(i)) >= 0,
    decreases i,
{
    assert(s.take(i + 1).drop_last() =~= s.take(i));
    if i > 0 {
        lemma_digits_value_grows(s, i - 1);
    } else {
        assert(s.take(0).len() == 0);
    }
}

proof fn lemma_digits_value_prefix(s: Seq<char>, i: int, j: int)
    requires
        0 <= i <= j <= s.len(),
        all_digits(s),
    ensures
        0 <= digits_value(s.take(i)) <= digits_value(s.take(j)),
    decreases j - i,
{
    if i < j {
        lemma_digits_value_prefix(s, i, j - 1);
        lemma_digits_value_grows(s, j - 1);
    } else if i == 0 {
        assert(s.take(0).len() == 0);
    } else {
        lemma_digits_value_grows(s, i - 1);
    }
}

/// The rank that the text `s` spells, if it is one.
pub fn rank_number(s: &str) -> (r: Option<u32>)
    ensures
        r == rank_value(s@),
{
    let len = s.unicode_len();
    if len == 0 {
        return None;
    }
    let mut value: u64 = 0;
    let mut i: usize = 0;
    while i < len
        invariant
            len == s@.len(),
            i <= len,
            all_digits(s@.take(i as int)),
            value == digits_value(s@.take(i as int)),
            value <= u32::MAX,
        decreases len - i,
    {
        let c = s.get_char(i);
        assert(s@.take(i + 1).drop_last() =~= s@.take(i as int));
        if c < '0' || c > '9' {
            proof {
                assert(!all_digits(s@));
            }
            return None;
        }
        let next = value * 10 + (c as u64 - '0' as u64);
        assert(next == digits_value(s@.take(i + 1)));
        if next > u32::MAX as u64 {
            proof {
                assert(all_digits(s@.take(i + 1)));
                if all_digits(s@) {
                    lemma_digits_value_prefix(s@, i + 1, len as int);
                    assert(s@.take(len as int) =~= s@);
                }
            }
            return None;
        }
        value = next;
        i = i + 1;
    }
    assert(s@.take(len as int) =~= s@);
    Some(value as u32)
}

/// The position of the first city whose rank text is exactly `rank`, or
/// `CityNotFound`.
pub fn city_position(ranks: &Vec<String>, rank: &str) -> (r: Result<usize, AppError>)
    ensures
        match r {
            Ok(i) => i < ranks@.len() && ranks@[i as int]@ == rank@ && forall|k: int| 0 <= k < i ==> ranks@[k]@ != rank@,
            Err(e) => e == AppError::CityNotFound && forall|k: int| 0 <= k < ranks@.len() ==> ranks@[k]@ != rank@,
        },
{
    let wanted = String::from_str(rank);
    let mut i: usize = 0;
    while i < ranks.len()
        invariant
            i <= ranks@.len(),
            wanted@ == rank@,
            forall|k: int| 0 <= k < i ==> ranks@[k]@ != rank@,
        decreases ranks@.len() - i,
    {
        if ranks[i] == wanted {
            return Ok(i);
        }
        i = i + 1;
    }
    Err(AppError::CityNotFound)
}

/// The position of the first city whose rank text spells `number`.
pub fn city_with_rank_number(ranks: &Vec<String>, number: u32) -> (r: Option<usize>)
    ensures
        match r {
            Some(i) => i < ranks@.len() && rank_value(ranks@[i as int]@) == Some(number)
                && forall|k: int| 0 <= k < i ==> rank_value(ranks@[k]@) != Some(number),
            None => forall|k: int| 0 <= k < ranks@.len() ==> rank_value(ranks@[k]@) != Some(number),
        },
{
    let mut i: usize = 0;
    while i < ranks.len()
        invariant
            i <= ranks@.len(),
            forall|k: int| 0 <= k < i ==> rank_value(ranks@[k]@) != Some(number),
        decreases ranks@.len() - i,
    {
        let found = rank_number(ranks[i].as_str());
        if found == Some(number) {
            return Some(i);
        }
        i = i + 1;
    }
    None
}

/// A random city: a rank between the first and the last is drawn, and the
/// first city with that rank is chosen, if the list has one.
pub fn random_city_position(ranks: &Vec<String>) -> (r: Option<usize>)
    ensures
        match r {
            Some(i) => i < ranks@.len() && (exists|n: u32| FIRST_CITY_RANK <= n <= LAST_CITY_RANK
                && rank_value(#[trigger] ranks@[i as int]@) == Some(n)),
            None => true,
        },
{
    let number = random_between(FIRST_CITY_RANK, LAST_CITY_RANK);
    city_with_rank_number(ranks, number)
}

} // verus!
