//! Clock text and random names.

use vstd::prelude::*;
use crate::text::{ascii_bytes, ascii_chars, ascii_string};
use rand::seq::SliceRandom;

verus! {

/// Seconds east of UTC of the time zone in which times are shown (UTC+9).
pub const DISPLAY_OFFSET_SECS: i32 = 32400;

/// The largest clock value (seconds since the Unix epoch) that this library
/// accepts: the last second of the year 9999 in UTC+9.
pub const MAX_CLOCK: i64 = 253402268399;

/// A strftime pattern that uses only the specifiers `%Y %m %d %H %M %S`,
/// each `%` followed by one of them.
pub open spec fn plain_strftime(p: Seq<char>) -> bool {
    forall|i: int|
        0 <= i < p.len() && #[trigger] p[i] == '%' ==> i + 1 < p.len() && (p[i + 1] == 'Y'
            || p[i + 1] == 'm' || p[i + 1] == 'd' || p[i + 1] == 'H' || p[i + 1] == 'M' || p[i
            + 1] == 'S')
}

/// The text that chrono writes for the instant `ts` (seconds since the Unix
/// epoch) seen at `offset` seconds east of UTC, with the strftime pattern
/// `pattern`; `None` where chrono has no such instant or offset.
pub uninterp spec fn chrono_local_text(ts: i64, offset: i32, pattern: Seq<char>) -> Option<Seq<char>>;

/// `chrono::FixedOffset::east_opt`, `TimeZone::timestamp_opt` and
/// `DateTime::format(..).to_string()`. Claimed: the result is the named text;
/// for an offset under a day and an instant from 1970 through the year 9999
/// there is one.
#[verifier::external_body]
fn chrono_format(ts: i64, offset: i32, pattern: &str) -> (res: Option<String>)
    requires
        plain_strftime(pattern@),
    ensures
        (match res {
            Some(t) => Some(t@),
            None => None,
        }) == chrono_local_text(ts, offset, pattern@),
        0 <= ts <= MAX_CLOCK && -86400 < offset < 86400 ==> res is Some,
{
    match chrono::FixedOffset::east_opt(offset) {
        Some(tz) => match chrono::TimeZone::timestamp_opt(&tz, ts, 0).single() {
            Some(t) => Some(t.format(pattern).to_string()),
            None => None,
        },
        None => None,
    }
}

/// The text of the instant `now` in UTC+9 as `YYYY/MM/DD hh:mm:ss`.
pub open spec fn time_text(now: i64) -> Seq<char> {
    chrono_local_text(now, DISPLAY_OFFSET_SECS, "%Y/%m/%d %H:%M:%S"@)->Some_0
}

/// The current time as text, given the clock `now`.
pub fn current_time_string(now: i64) -> (res: String)
    requires
        0 <= now <= MAX_CLOCK,
    ensures
        res@ == time_text(now),
        chrono_local_text(now, DISPLAY_OFFSET_SECS, "%Y/%m/%d %H:%M:%S"@) is Some,
{
    let pattern = "%Y/%m/%d %H:%M:%S";
    proof {
        reveal_strlit("%Y/%m/%d %H:%M:%S");
    }
    match chrono_format(now, DISPLAY_OFFSET_SECS, pattern) {
        Some(t) => t,
        None => {
            proof {
                assert(false);
            }
            String::new()
        },
    }
}

/// The characters of random names: upper-case letters, lower-case letters,
/// then digits.
pub open spec fn name_byte(k: int) -> u8 {
    if k < 26 {
        (65 + k) as u8
    } else if k < 52 {
        (97 + (k - 26)) as u8
    } else {
        (48 + (k - 52)) as u8
    }
}

/// The number of characters that random names are drawn from.
pub const NAME_ALPHABET_LEN: usize = 62;

/// An ASCII letter or digit.
pub open spec fn is_alphanumeric(c: char) -> bool {
    ('A' <= c <= 'Z') || ('a' <= c <= 'z') || ('0' <= c <= '9')
}

fn name_alphabet() -> (res: Vec<u8>)
    ensures
        res@ == Seq::new(62, |k: int| name_byte(k)),
{
    let mut v: Vec<u8> = Vec::new();
    let mut k: u8 = 0;
    while k < 62
        invariant
            k <= 62,
            v@ == Seq::new(k as nat, |j: int| name_byte(j)),
        decreases 62 - k,
    {
        let b: u8 = if k < 26 {
            65 + k
        } else if k < 52 {
            97 + (k - 26)
        } else {
            48 + (k - 52)
        };
        v.push(b);
        k = k + 1;
        assert(v@ =~= Seq::new(k as nat, |j: int| name_byte(j)));
    }
    v
}

/// `picked` lists elements of `base` taken at distinct positions.
pub open spec fn picked_without_repetition(base: Seq<u8>, picked: Seq<u8>) -> bool {
    exists|idx: Seq<int>|
        #![trigger idx.no_duplicates()]
        idx.len() == picked.len() && idx.no_duplicates() && forall|i: int|
            0 <= i < idx.len() ==> 0 <= #[trigger] idx[i] < base.len() && picked[i] == base[idx[i]]
}

/// `rand::seq::SliceRandom::choose_multiple` with `rand::thread_rng`, the
/// chosen elements collected in order. Claimed (as rand's source shows):
/// `min(amount, base.len())` elements, taken at distinct positions of `base`.
/// Which positions, and their order, is left to chance and not stated.
#[verifier::external_body]
fn choose_multiple(base: &[u8], amount: usize) -> (res: Vec<u8>)
    ensures
        res@.len() == if amount < base@.len() { amount as int } else { base@.len() as int },
        picked_without_repetition(base@, res@),
{
    let mut rng = rand::thread_rng();
    base.choose_multiple(&mut rng, amount).cloned().collect()
}

/// A random name of `size` distinct letters and digits (of all of them, in a
/// random order, when `size` exceeds their number).
pub fn gen_rnd_str(size: usize) -> (res: String)
    ensures
        res@.len() == if size < NAME_ALPHABET_LEN { size as int } else { NAME_ALPHABET_LEN as int },
        forall|i: int| 0 <= i < res@.len() ==> is_alphanumeric(#[trigger] res@[i]),
        res@.no_duplicates(),
{
    let base = name_alphabet();
    let picked = choose_multiple(base.as_slice(), size);
    proof {
        let idx = choose|idx: Seq<int>|
            #![trigger idx.no_duplicates()]
            idx.len() == picked@.len() && idx.no_duplicates() && forall|i: int|
                0 <= i < idx.len() ==> 0 <= #[trigger] idx[i] < base@.len() && picked@[i]
                    == base@[idx[i]];
        assert forall|i: int| 0 <= i < picked@.len() implies #[trigger] picked@[i] < 128 by {
            assert(0 <= idx[i] < 62);
        }
    }
    let res = ascii_string(picked);
    proof {
        let idx = choose|idx: Seq<int>|
            #![trigger idx.no_duplicates()]
            idx.len() == picked@.len() && idx.no_duplicates() && forall|i: int|
                0 <= i < idx.len() ==> 0 <= #[trigger] idx[i] < base@.len() && picked@[i]
                    == base@[idx[i]];
        assert forall|i: int| 0 <= i < res@.len() implies is_alphanumeric(#[trigger] res@[i]) by {
            assert(0 <= idx[i] < 62);
            assert(res@[i] == picked@[i] as char);
        }
        assert forall|i: int, j: int| 0 <= i < res@.len() && 0 <= j < res@.len() && i != j
            implies res@[i] != res@[j] by {
            assert(0 <= idx[i] < 62);
            assert(0 <= idx[j] < 62);
            assert(idx[i] != idx[j]);
            assert(res@[i] == picked@[i] as char);
            assert(res@[j] == picked@[j] as char);
        }
    }
    res
}

} // verus!
