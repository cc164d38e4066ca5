//! Timestamp extraction: which field of which sentence type carries a wall
//! clock time of day, and how to read it.
//!
//! A sentence is split on commas; the three characters after the `$` and the
//! two-letter talker prefix give the type code. A locator maps a type code
//! to the index of its time field and the textual time formats to try, first
//! successful parse wins. Sentence types that carry no time field simply
//! yield no stamp.

use crate::scan::{bytes_eq, split_bytes, split_fields};
use chrono::Timelike;
use vstd::prelude::*;
use vstd::string::StringSliceAdditionalSpecFns;

verus! {

/// A wall clock time of day, in milliseconds since midnight.
#[derive(Debug, Clone, Copy, PartialEq, Eq, Structural)]
pub struct TimeOfDay {
    pub millis: u32,
}

/// A textual time-of-day format: whole seconds (`HHMMSS`) or seconds with a
/// millisecond fraction (`HHMMSS.sss`).
#[derive(Debug, Clone, Copy, PartialEq, Eq, Structural)]
pub enum TimeFormat {
    UtcTime,
    UtcTimeMillis,
}

impl TimeFormat {
    /// The strftime-style pattern that this format stands for.
    pub open spec fn spec_str(&self) -> Seq<char> {
        match *self {
            TimeFormat::UtcTime => "%H%M%S"@,
            TimeFormat::UtcTimeMillis => "%H%M%S%.3f"@,
        }
    }

    pub fn to_str(&self) -> (r: &'static str)
        ensures
            r@ == self.spec_str(),
    {
        match *self {
            TimeFormat::UtcTime => "%H%M%S",
            TimeFormat::UtcTimeMillis => "%H%M%S%.3f",
        }
    }
}

/// Where a sentence type keeps its time of day: the comma-separated field at
/// `position`, tried against each format in order.
#[derive(Debug, Clone)]
pub struct NMEATimeRepr {
    pub position: usize,
    pub formats: Vec<TimeFormat>,
}

/// Immutable mapping from a sentence type code (the bytes after the talker
/// prefix, e.g. `GGA`) to the location of its time field. Built once at
/// startup; lookups walk the entries in order and the first code match wins.
#[derive(Debug, Clone)]
pub struct SentenceTimeLocator {
    pub entries: Vec<(Vec<u8>, NMEATimeRepr)>,
}

pub open spec fn spec_locator_get(
    entries: Seq<(Vec<u8>, NMEATimeRepr)>,
    key: Seq<u8>,
) -> Option<NMEATimeRepr>
    decreases entries.len(),
{
    if entries.len() == 0 {
        None
    } else if entries[0].0@ == key {
        Some(entries[0].1)
    } else {
        spec_locator_get(entries.skip(1), key)
    }
}

impl SentenceTimeLocator {
    pub open spec fn spec_get(&self, key: Seq<u8>) -> Option<NMEATimeRepr> {
        spec_locator_get(self.entries@, key)
    }

    /// The time-field location configured for the given type code, if any.
    pub fn get(&self, key: &[u8]) -> (r: Option<&NMEATimeRepr>)
        ensures
            match r {
                Some(repr) => self.spec_get(key@) == Some(*repr),
                None => self.spec_get(key@) is None,
            },
    {
        let n = self.entries.len();
        let mut i: usize = 0;
        proof {
            assert(self.entries@.skip(0) =~= self.entries@);
        }
        while i < n
            invariant
                n == self.entries@.len(),
                0 <= i <= n,
                spec_locator_get(self.entries@, key@) == spec_locator_get(
                    self.entries@.skip(i as int),
                    key@,
                ),
            decreases n - i,
        {
            proof {
                assert(self.entries@.skip(i as int)[0] == self.entries@[i as int]);
            }
            if bytes_eq(self.entries[i].0.as_slice(), key) {
                return Some(&self.entries[i].1);
            }
            proof {
                assert(self.entries@.skip(i as int).skip(1) =~= self.entries@.skip(i as int + 1));
            }
            i = i + 1;
        }
        proof {
            assert(self.entries@.skip(n as int) =~= Seq::<(Vec<u8>, NMEATimeRepr)>::empty());
        }
        None
    }
}

/// What the time parser answers for a field tried against a format pattern:
/// seconds since midnight and the nanoseconds within that second, or nothing
/// when the field does not match the pattern. The outcome is a function of
/// the field text and the pattern alone.
pub uninterp spec fn spec_parse_time(field: Seq<u8>, fmt: Seq<char>) -> Option<(u32, u32)>;

/// Relies on chrono::NaiveTime::parse_from_str (and the Timelike accessors
/// num_seconds_from_midnight and nanosecond to read the result): parsing is
/// a pure function of the field text and the format; a parsed time of day
/// lies below 86400 seconds, and its nanosecond part below 2_000_000_000
/// (values of 1_000_000_000 and above stand for a leap second).
#[verifier::external_body]
fn parse_time_field(field: &[u8], fmt: &str) -> (r: Option<(u32, u32)>)
    ensures
        r == spec_parse_time(field@, fmt@),
        r matches Some(p) ==> p.0 < 86400 && p.1 < 2_000_000_000,
{
    match core::str::from_utf8(field) {
        Ok(s) => match chrono::NaiveTime::parse_from_str(s, fmt) {
            Ok(t) => Some((t.num_seconds_from_midnight(), t.nanosecond())),
            Err(_) => None,
        },
        Err(_) => None,
    }
}

/// Milliseconds since midnight of a parsed (seconds, nanoseconds) pair; the
/// nanoseconds are truncated to whole milliseconds.
pub open spec fn spec_millis_of(p: (u32, u32)) -> int {
    (p.0 as int) * 1000 + (p.1 as int) / 1_000_000
}

/// The first format in `formats` that parses `field`, in order.
pub open spec fn spec_first_parse(field: Seq<u8>, formats: Seq<TimeFormat>) -> Option<(u32, u32)>
    decreases formats.len(),
{
    if formats.len() == 0 {
        None
    } else {
        match spec_parse_time(field, formats[0].spec_str()) {
            Some(p) => Some(p),
            None => spec_first_parse(field, formats.skip(1)),
        }
    }
}

/// The time of day embedded in a sentence, in milliseconds since midnight:
/// the first field names the sentence type (its bytes after the `$` and the
/// two-letter talker prefix are the locator key); when the locator knows the
/// type and the sentence has the configured field, the first format that
/// parses that field gives the stamp. Everything else yields `None`.
pub open spec fn spec_extract_stamp(line: Seq<u8>, locator: SentenceTimeLocator) -> Option<int> {
    let fields = split_bytes(line, 44);
    if fields[0].len() < 3 {
        None
    } else {
        match locator.spec_get(fields[0].skip(3)) {
            None => None,
            Some(repr) => if repr.position >= fields.len() {
                None
            } else {
                match spec_first_parse(fields[repr.position as int], repr.formats@) {
                    Some(p) => Some(spec_millis_of(p)),
                    None => None,
                }
            },
        }
    }
}

/// The standard locator: fix sentences (`GGA`, `RMC`, `GST`) carry UTC time
/// at field index 1, read as whole seconds first and then as seconds with a
/// millisecond fraction.
pub fn get_nmea_positions() -> (r: SentenceTimeLocator)
    ensures
        r.entries@.len() == 3,
        r.entries@[0].0@ == seq![71u8, 71u8, 65u8],
        r.entries@[1].0@ == seq![82u8, 77u8, 67u8],
        r.entries@[2].0@ == seq![71u8, 83u8, 84u8],
        forall|i: int|
            0 <= i < 3 ==> (#[trigger] r.entries@[i].1).position == 1
                && r.entries@[i].1.formats@ == seq![TimeFormat::UtcTime, TimeFormat::UtcTimeMillis],
{
    let mut entries: Vec<(Vec<u8>, NMEATimeRepr)> = Vec::new();
    let gga: Vec<u8> = vec![71u8, 71u8, 65u8];
    let rmc: Vec<u8> = vec![82u8, 77u8, 67u8];
    let gst: Vec<u8> = vec![71u8, 83u8, 84u8];
    entries.push((gga, NMEATimeRepr { position: 1, formats: vec![TimeFormat::UtcTime, TimeFormat::UtcTimeMillis] }));
    entries.push((rmc, NMEATimeRepr { position: 1, formats: vec![TimeFormat::UtcTime, TimeFormat::UtcTimeMillis] }));
    entries.push((gst, NMEATimeRepr { position: 1, formats: vec![TimeFormat::UtcTime, TimeFormat::UtcTimeMillis] }));
    SentenceTimeLocator { entries }
}

/// The time of day carried by `line`, if its sentence type is one the
/// locator knows and the configured field parses under one of the
/// configured formats. A type code absent from the locator, a missing
/// field, or a field in no accepted format all yield `None`, never an
/// error.
#[verifier::loop_isolation(false)]
pub fn get_stamp_from_nmea_line(line: &str, nmea_positions: &SentenceTimeLocator) -> (r: Option<
    TimeOfDay,
>)
    ensures
        r is Some <==> spec_extract_stamp(line.spec_bytes(), *nmea_positions) is Some,
        r matches Some(t) ==> spec_extract_stamp(line.spec_bytes(), *nmea_positions) == Some(
            t.millis as int,
        ),
{
    let bytes = line.as_bytes();
    let fields = split_fields(bytes, 44);
    proof {
        assert(fields.deep_view().len() >= 1);
        assert(fields@.len() == fields.deep_view().len());
        assert(fields.deep_view()[0] == fields@[0].deep_view());
        assert(fields@[0].deep_view() =~= fields@[0]@);
    }
    if fields[0].len() < 3 {
        return None;
    }
    let key = vstd::slice::slice_subrange(fields[0].as_slice(), 3, fields[0].len());
    proof {
        assert(key@ =~= fields.deep_view()[0].skip(3));
    }
    match nmea_positions.get(key) {
        None => None,
        Some(repr) => {
            if repr.position >= fields.len() {
                return None;
            }
            let field = &fields[repr.position];
            proof {
                assert(field@ =~= fields.deep_view()[repr.position as int]);
            }
            let flen = repr.formats.len();
            let mut k: usize = 0;
            proof {
                assert(repr.formats@.skip(0) =~= repr.formats@);
            }
            while k < flen
                invariant
                    flen == repr.formats@.len(),
                    0 <= k <= flen,
                    spec_first_parse(field@, repr.formats@) == spec_first_parse(
                        field@,
                        repr.formats@.skip(k as int),
                    ),
                decreases flen - k,
            {
                proof {
                    assert(repr.formats@.skip(k as int)[0] == repr.formats@[k as int]);
                }
                let fmt = repr.formats[k].to_str();
                match parse_time_field(field.as_slice(), fmt) {
                    Some(p) => {
                        let millis: u32 = p.0 * 1000 + p.1 / 1_000_000;
                        return Some(TimeOfDay { millis });
                    },
                    None => {
                        proof {
                            assert(repr.formats@.skip(k as int).skip(1) =~= repr.formats@.skip(
                                k as int + 1,
                            ));
                        }
                    },
                }
                k = k + 1;
            }
            proof {
                assert(repr.formats@.skip(flen as int) =~= Seq::<TimeFormat>::empty());
            }
            None
        },
    }
}

} // verus!
