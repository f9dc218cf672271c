//! The time of day for file names, and running times for the display.

use vstd::prelude::*;

use crate::text;
use crate::text::dec_padded;

verus! {

/// `SystemTime::elapsed` on the Unix epoch: how long ago it was, in whole
/// seconds and the nanoseconds beyond them, of which there are always less than
/// a second's. Nothing comes if the clock stands before the epoch. What the
/// clock shows is not said.
#[verifier::external_body]
fn since_epoch() -> (r: Option<(u64, u32)>)
    ensures
        r matches Some((secs, nanos)) ==> nanos < 1_000_000_000,
{
    std::time::UNIX_EPOCH.elapsed().ok().map(|d| (d.as_secs(), d.subsec_nanos()))
}

/// Whole milliseconds in a time given in seconds and nanoseconds.
pub fn whole_millis(secs: u64, nanos: u32) -> (r: u128)
    ensures
        r == secs * 1_000 + nanos / 1_000_000,
{
    secs as u128 * 1_000 + (nanos / 1_000_000) as u128
}

/// The milliseconds that a reading of the clock stands for: those of its seconds
/// and nanoseconds since the Unix epoch, and nothing exactly where the clock
/// stood before it.
pub fn epoch_millis(elapsed: Option<(u64, u32)>) -> (r: Option<u128>)
    ensures
        match elapsed {
            Some((secs, nanos)) => r matches Some(ms) && ms == secs * 1_000 + nanos / 1_000_000,
            None => r is None,
        },
{
    match elapsed {
        Some((secs, nanos)) => Some(whole_millis(secs, nanos)),
        None => None,
    }
}

/// Milliseconds since the Unix epoch; nothing if the clock stands before it.
pub fn timestamp_ms() -> (r: Option<u128>)
    ensures
        r matches Some(ms) ==> ms <= u64::MAX * 1_000 + 999,
{
    epoch_millis(since_epoch())
}

/// A running time in minutes and seconds, at least two digits each.
pub open spec fn clock_text(secs: nat) -> Seq<char> {
    text::padded(secs / 60, 2) + ":"@ + text::padded(secs % 60, 2)
}

/// Writes a running time in minutes and seconds.
pub fn format_duration(secs: u64) -> (r: String)
    ensures
        r@ == clock_text(secs as nat),
{
    let mut s = dec_padded((secs / 60) as u128, 2);
    s.append(":");
    let seconds = dec_padded((secs % 60) as u128, 2);
    s.append(seconds.as_str());
    s
}

proof fn lemma_two_digits(n: nat)
    ensures
        text::all_digits(text::padded(n, 2)),
        text::padded(n, 2).len() >= 2,
        n < 100 ==> text::padded(n, 2).len() == 2,
        text::decimal_value(text::padded(n, 2)) == n,
{
    text::padded_reads_back(n, 2);
    if n < 100 {
        assert(n >= 10 ==> text::decimal(n / 10).len() == 1);
    }
}

/// A running time reads back: the minutes before the colon and the two digits
/// of seconds behind it make up the time again.
pub proof fn clock_text_reads_back(secs: nat)
    ensures
        ({
            let t = clock_text(secs);
            let colon = t.len() - 3;
            &&& colon >= 2
            &&& t[colon] == ':'
            &&& text::all_digits(t.take(colon))
            &&& text::all_digits(t.skip(colon + 1))
            &&& text::decimal_value(t.skip(colon + 1)) < 60
            &&& text::decimal_value(t.take(colon)) * 60 + text::decimal_value(t.skip(colon + 1))
                == secs
        }),
{
    reveal_strlit(":");
    let m = text::padded(secs / 60, 2);
    let s = text::padded(secs % 60, 2);
    lemma_two_digits(secs / 60);
    lemma_two_digits(secs % 60);
    let t = clock_text(secs);
    let colon = t.len() - 3;
    assert(t.take(colon) =~= m);
    assert(t.skip(colon + 1) =~= s);
}

/// A reading of the clock is taken in full milliseconds: none is missing, and
/// none is counted that has not passed.
pub proof fn millis_are_rounded_down(secs: u64, nanos: u32, ms: u128)
    requires
        call_ensures(whole_millis, (secs, nanos), ms),
    ensures
        ms * 1_000_000 <= secs * 1_000_000_000 + nanos < (ms + 1) * 1_000_000,
{
}

/// There is a time exactly where the clock does not stand before the epoch.
pub proof fn only_times_before_the_epoch_are_none(
    elapsed: Option<(u64, u32)>,
    r: Option<u128>,
)
    requires
        call_ensures(epoch_millis, (elapsed,), r),
    ensures
        r is None <==> elapsed is None,
        elapsed matches Some((secs, nanos)) ==> r->0 * 1_000_000 <= secs * 1_000_000_000 + nanos < (
        r->0 + 1) * 1_000_000,
{
}

} // verus!
