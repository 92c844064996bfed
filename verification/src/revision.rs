//! Revision counters for descriptors: the "encrypted time in period"
//! scheme.
//!
//! Each descriptor carries a revision counter so that a directory keeps
//! only the freshest.  The counter is an order-preserving encryption of
//! the wall-clock offset within the time period, under a key derived from
//! the secret half of the period's blinded identity key: deterministic
//! across instances sharing the key, strictly increasing in wall-clock
//! time within the period, and not revealing our clock skew.

use vstd::prelude::*;
use crate::errors::FatalError;

verus! {

/// A consensus-defined time period: a contiguous window of
/// `length_minutes`, the `interval_num`-th such window counted from
/// `epoch_offset_secs` seconds after the Unix epoch.
#[derive(Clone, Copy, PartialEq, Eq, Structural, Debug)]
pub struct TimePeriod {
    /// Which interval this is.
    pub interval_num: u64,
    /// The length of every interval, in minutes.
    pub length_minutes: u32,
    /// Seconds after the Unix epoch at which interval counting starts.
    pub epoch_offset_secs: u32,
}

/// When this period starts, in seconds after the Unix epoch.
pub open spec fn period_start_sec(p: TimePeriod) -> int {
    p.interval_num * (p.length_minutes * 60) + p.epoch_offset_secs
}

/// When this period ends (exclusive), in seconds after the Unix epoch.
pub open spec fn period_end_sec(p: TimePeriod) -> int {
    period_start_sec(p) + p.length_minutes * 60
}

/// The offset of a wall-clock instant (milliseconds) within the period,
/// in whole seconds; `None` if the instant is outside the period.
pub open spec fn spec_offset_within(p: TimePeriod, wall_ms: u64) -> Option<u32> {
    let sec = wall_ms / 1000;
    if period_start_sec(p) <= sec < period_end_sec(p) && sec - period_start_sec(p) <= u32::MAX {
        Some((sec - period_start_sec(p)) as u32)
    } else {
        None
    }
}

/// What `tor_hscrypto`'s order-preserving encryption returns for a given
/// key secret and offset.
pub uninterp spec fn ope_of(secret: Seq<u8>, offset: u32) -> u64;

/// Relies on `tor_hscrypto::ope::AesOpeKey`: `from_secret` derives the
/// cipher key from the given secret alone, and `encrypt` is a
/// deterministic function of that key and the offset whose result grows
/// by at least one for every increase of the offset (the accumulator
/// starts at the offset itself).  So the result is strictly larger than
/// the encryption of any smaller offset, and strictly smaller than that
/// of any larger one, below the offset's saturation point.
#[verifier::external_body]
fn ope_encrypt(secret: &Vec<u8>, offset: u32) -> (r: u64)
    ensures
        r == ope_of(secret@, offset),
        forall|o2: u32| offset < o2 < 0xffffffffu32 ==> r < #[trigger] ope_of(secret@, o2),
        forall|o1: u32| o1 < offset < 0xffffffffu32 ==> #[trigger] ope_of(secret@, o1) < r,
{
    let key = tor_hscrypto::ope::AesOpeKey::from_secret(secret.as_slice());
    key.encrypt(tor_hscrypto::ope::SrvPeriodOffset::from(offset))
}

/// The offset of `wall_ms` within `p`, in whole seconds.
pub fn offset_within_period(p: TimePeriod, wall_ms: u64) -> (r: Option<u32>)
    ensures
        r == spec_offset_within(p, wall_ms),
{
    let len_sec: u128 = (p.length_minutes as u128) * 60;
    proof {
        assert(len_sec <= 0xffffffffu128 * 60);
        assert((p.interval_num as u128) * len_sec <= 0xffffffffffffffffu128 * (0xffffffffu128
            * 60)) by (nonlinear_arith)
            requires
                (p.interval_num as u128) <= 0xffffffffffffffffu128,
                len_sec <= 0xffffffffu128 * 60,
        ;
    }
    let start: u128 = (p.interval_num as u128) * len_sec + (p.epoch_offset_secs as u128);
    let end: u128 = start + len_sec;
    let sec: u128 = (wall_ms / 1000) as u128;
    if start <= sec && sec < end && sec - start <= u32::MAX as u128 {
        Some((sec - start) as u32)
    } else {
        None
    }
}

/// Generate the revision counter for a descriptor in period `p` at
/// wall-clock time `now_ms`, under the key secret `secret`.
///
/// A wall clock outside the period (skewed or stepped backwards) is the
/// internal error: no descriptor can be generated for this period then.
pub fn generate_revision_counter(secret: &Vec<u8>, p: TimePeriod, now_ms: u64) -> (r: Result<
    u64,
    FatalError,
>)
    ensures
        ({
            match spec_offset_within(p, now_ms) {
                Some(o) => {
                    &&& r == Ok::<u64, FatalError>(ope_of(secret@, o))
                    &&& forall|o2: u32|
                        o < o2 < 0xffffffffu32 ==> ope_of(secret@, o) < #[trigger] ope_of(
                            secret@,
                            o2,
                        )
                    &&& forall|o1: u32|
                        o1 < o < 0xffffffffu32 ==> #[trigger] ope_of(secret@, o1) < ope_of(
                            secret@,
                            o,
                        )
                },
                None => r == Err::<u64, FatalError>(FatalError::Bug),
            }
        }),
{
    match offset_within_period(p, now_ms) {
        Some(o) => Ok(ope_encrypt(secret, o)),
        None => Err(FatalError::Bug),
    }
}

/// Later wall-clock times give later offsets: the offset is monotone in
/// the clock, strictly so across a seconds boundary.
pub proof fn lemma_offset_monotone(p: TimePeriod, t1: u64, t2: u64)
    requires
        spec_offset_within(p, t1) is Some,
        spec_offset_within(p, t2) is Some,
        t1 / 1000 < t2 / 1000,
    ensures
        spec_offset_within(p, t1)->Some_0 < spec_offset_within(p, t2)->Some_0,
{
}

/// Within one time period, revision counters are strictly increasing in
/// wall-clock time: generated at two instants of the period lying in
/// different seconds, the later counter is strictly larger.
pub fn revision_counters_in_order(secret: &Vec<u8>, p: TimePeriod, t1: u64, t2: u64) -> (r:
    Result<(u64, u64), FatalError>)
    ensures
        ({
            match (spec_offset_within(p, t1), spec_offset_within(p, t2)) {
                (Some(o1), Some(o2)) => {
                    &&& r == Ok::<(u64, u64), FatalError>(
                        (ope_of(secret@, o1), ope_of(secret@, o2)),
                    )
                    &&& (t1 / 1000 < t2 / 1000 && o2 < 0xffffffffu32) ==> ope_of(secret@, o1)
                        < ope_of(secret@, o2)
                },
                _ => r == Err::<(u64, u64), FatalError>(FatalError::Bug),
            }
        }),
{
    let c1 = match generate_revision_counter(secret, p, t1) {
        Ok(c) => c,
        Err(e) => {
            return Err(e);
        },
    };
    let c2 = match generate_revision_counter(secret, p, t2) {
        Ok(c) => c,
        Err(e) => {
            return Err(e);
        },
    };
    proof {
        let o1 = spec_offset_within(p, t1)->Some_0;
        let o2 = spec_offset_within(p, t2)->Some_0;
        if t1 / 1000 < t2 / 1000 && o2 < 0xffffffffu32 {
            lemma_offset_monotone(p, t1, t2);
            assert(o1 < o2);
        }
    }
    Ok((c1, c2))
}

} // verus!
