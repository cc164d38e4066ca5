//! Pacing engine: computes how long to wait before emitting each sentence,
//! reproducing the recorded gap between consecutive embedded timestamps,
//! scaled by the replay rate.
//!
//! The engine is a small state machine. It starts idle, with no reference
//! stamp; the first timestamped sentence is emitted immediately and becomes
//! the reference. Each later timestamped sentence waits for the gap since
//! the reference divided by the rate — unless its stamp is not strictly
//! later (day rollover, duplicates), in which case it is emitted at once.
//! A sentence without a recognizable stamp leaves the reference alone and
//! imposes a fixed one-second default gap, rate-scaled.

use crate::nmea_line_codec::NMEALineCodec;
use crate::nmea_reader::{get_stamp_from_nmea_line, spec_extract_stamp, SentenceTimeLocator,
    TimeOfDay};
use crate::scan::split_bytes;
use vstd::arithmetic::div_mod::lemma_div_denominator;
use vstd::prelude::*;
use vstd::string::StringSliceAdditionalSpecFns;

verus! {

/// The replay-rate multiplier, held in thousandths: 1000 replays in real
/// time, 2000 at double speed, 500 at half speed. A rate of zero or less is
/// invalid configuration and cannot be constructed.
#[derive(Debug, Clone, Copy)]
pub struct ReplayRate {
    millis: u32,
}

impl ReplayRate {
    /// The rate in thousandths.
    pub closed spec fn spec_millis(&self) -> int {
        self.millis as int
    }

    /// A constructed rate is always positive.
    pub open spec fn wf(&self) -> bool {
        self.spec_millis() > 0
    }

    /// Validate and build a rate from thousandths; zero is rejected.
    pub fn from_millis(millis: u32) -> (r: Option<ReplayRate>)
        ensures
            r is Some <==> millis > 0,
            r matches Some(rate) ==> rate.spec_millis() == millis && rate.wf(),
    {
        if millis > 0 {
            Some(ReplayRate { millis })
        } else {
            None
        }
    }

    pub fn millis(&self) -> (r: u32)
        ensures
            r as int == self.spec_millis(),
    {
        self.millis
    }
}

/// The milliseconds of a stamp, if one is present.
pub open spec fn spec_opt_millis(stamp: Option<TimeOfDay>) -> Option<int> {
    match stamp {
        Some(t) => Some(t.millis as int),
        None => None,
    }
}

/// The wait, in milliseconds, before a sentence whose recorded gap is
/// `elapsed_millis` may be emitted at the given rate: the gap scaled down by
/// the rate, rounded toward zero.
pub open spec fn spec_delay_millis(elapsed_millis: int, rate_millis: int) -> int
    recommends
        0 <= elapsed_millis,
        rate_millis > 0,
{
    elapsed_millis * 1000 / rate_millis
}

/// The wait before emitting a sentence carrying `stamp` when the engine last
/// saw `previous`:
/// * a stamp strictly later than the reference waits out the recorded gap,
///   rate-scaled;
/// * a stamp at or before the reference, or a stamp with no reference yet,
///   is emitted immediately;
/// * a sentence without a stamp waits the fixed one-second default gap,
///   rate-scaled.
pub open spec fn spec_step_delay(
    previous: Option<int>,
    stamp: Option<int>,
    rate_millis: int,
) -> int
    recommends
        rate_millis > 0,
{
    match stamp {
        None => spec_delay_millis(1000, rate_millis),
        Some(c) => match previous {
            None => 0,
            Some(p) => if c > p {
                spec_delay_millis(c - p, rate_millis)
            } else {
                0
            },
        },
    }
}

/// The mutable state of the pacing engine: the reference stamp of the most
/// recent timestamped sentence, absent while the engine is still idle.
pub struct ReplayState {
    pub previous_stamp: Option<TimeOfDay>,
}

impl ReplayState {
    /// A fresh engine is idle: no reference stamp yet.
    pub fn new() -> (r: ReplayState)
        ensures
            r.previous_stamp is None,
    {
        ReplayState { previous_stamp: None }
    }

    /// Advance the engine over one sentence whose extracted stamp is
    /// `stamp`, returning how many milliseconds to wait before emitting it.
    /// A timestamped sentence becomes the new reference; an untimestamped
    /// one leaves the reference unchanged.
    pub fn step(&mut self, stamp: Option<TimeOfDay>, rate: &ReplayRate) -> (delay: u64)
        requires
            rate.wf(),
        ensures
            delay as int == spec_step_delay(
                spec_opt_millis(old(self).previous_stamp),
                spec_opt_millis(stamp),
                rate.spec_millis(),
            ),
            final(self).previous_stamp == (if stamp is Some {
                stamp
            } else {
                old(self).previous_stamp
            }),
    {
        match stamp {
            Some(current) => {
                let delay: u64 = match self.previous_stamp {
                    Some(previous) => if current.millis > previous.millis {
                        (((current.millis - previous.millis) as u64) * 1000) / (rate.millis()
                            as u64)
                    } else {
                        0
                    },
                    None => 0,
                };
                self.previous_stamp = Some(current);
                delay
            },
            None => 1_000_000u64 / (rate.millis() as u64),
        }
    }
}

/// The full per-sentence pass of the replay loop: extract the stamp, advance
/// the pacing state to get the wait, and serialize the sentence for the wire
/// with its terminator normalized to carriage return + line feed.
pub fn pace_sentence(
    state: &mut ReplayState,
    line: &str,
    nmea_positions: &SentenceTimeLocator,
    rate: &ReplayRate,
) -> (r: (u64, Vec<u8>))
    requires
        rate.wf(),
    ensures
        r.0 as int == spec_step_delay(
            spec_opt_millis(old(state).previous_stamp),
            spec_extract_stamp(line.spec_bytes(), *nmea_positions),
            rate.spec_millis(),
        ),
        spec_opt_millis(final(state).previous_stamp) == (
        if spec_extract_stamp(line.spec_bytes(), *nmea_positions) is Some {
            spec_extract_stamp(line.spec_bytes(), *nmea_positions)
        } else {
            spec_opt_millis(old(state).previous_stamp)
        }),
        r.1@ == line.spec_bytes() + seq![13u8, 10u8],
{
    let stamp = get_stamp_from_nmea_line(line, nmea_positions);
    let delay = state.step(stamp, rate);
    let mut out: Vec<u8> = Vec::new();
    let mut codec = NMEALineCodec::default();
    codec.encode(line, &mut out);
    proof {
        assert(Seq::<u8>::empty() + line.spec_bytes() + seq![13u8, 10u8] =~= line.spec_bytes()
            + seq![13u8, 10u8]);
    }
    (delay, out)
}

/// The law of the pacing clock: between two timestamped sentences the wait
/// equals the recorded gap divided by the rate whenever the second stamp is
/// strictly later, and is zero otherwise.
pub proof fn lemma_delay_formula(t1: TimeOfDay, t2: TimeOfDay, rate_millis: int)
    requires
        rate_millis > 0,
    ensures
        t2.millis > t1.millis ==> spec_step_delay(
            Some(t1.millis as int),
            Some(t2.millis as int),
            rate_millis,
        ) == (t2.millis - t1.millis) * 1000 / rate_millis,
        t2.millis <= t1.millis ==> spec_step_delay(
            Some(t1.millis as int),
            Some(t2.millis as int),
            rate_millis,
        ) == 0,
{
}

/// A sentence whose type code the locator does not know yields no stamp,
/// and the engine answers with the fixed one-second default delay,
/// rate-scaled, rather than an error. The same holds for a sentence whose
/// leading field is too short to carry a type code at all.
pub proof fn lemma_unknown_type_gets_default_delay(
    line: Seq<u8>,
    locator: SentenceTimeLocator,
    previous: Option<int>,
    rate_millis: int,
)
    requires
        rate_millis > 0,
        split_bytes(line, 44)[0].len() >= 3 ==> locator.spec_get(
            split_bytes(line, 44)[0].skip(3),
        ) is None,
    ensures
        spec_extract_stamp(line, locator) is None,
        spec_step_delay(previous, spec_extract_stamp(line, locator), rate_millis)
            == spec_delay_millis(1000, rate_millis),
{
}

/// Doubling the rate halves the wait: for any recorded gap, the delay at
/// rate 2000 (double speed) is the delay at rate 1000 (real time) divided
/// by two.
pub proof fn lemma_double_rate_halves_delay(elapsed_millis: int)
    requires
        0 <= elapsed_millis,
    ensures
        spec_delay_millis(elapsed_millis, 2000) == spec_delay_millis(elapsed_millis, 1000) / 2,
{
    lemma_div_denominator(elapsed_millis * 1000, 1000, 2);
}

} // verus!
