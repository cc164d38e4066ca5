//! Sentence codec: frames a raw byte stream into discrete NMEA sentences and
//! serializes sentences back to bytes with a carriage-return + line-feed
//! terminator.
//!
//! A frame has the shape `$XXXX*YY\n`: decoding scans for the first line
//! feed, discards anything before the first `$` of that line as noise, and
//! returns the text from `$` through the line feed. The trailing `*YY`
//! checksum field is carried through verbatim; sentences are accepted whether
//! or not the checksum matches, mirroring the permissive framing this codec
//! has always used.

use crate::scan::{find_byte, find_index, lemma_find_index, lemma_find_index_append,
    lemma_find_index_is};
use vstd::prelude::*;
use vstd::string::StringSliceAdditionalSpecFns;
use vstd::utf8::{decode_utf8, valid_utf8};

verus! {

/// Framing failure: the framed span was not valid UTF-8. This aborts only
/// the current sentence, not the stream.
#[derive(Debug, PartialEq, Eq, Structural, Clone, Copy)]
pub enum DecodeError {
    InvalidUtf8,
}

pub struct NMEALineCodec;

/// The framed sentence in `buf`, if a complete line is present: the bytes
/// from the first `$` of the first line-feed-terminated span through that
/// line feed. `None` when no line feed has arrived yet, or when the
/// terminated span holds no `$` (noise).
pub open spec fn spec_frame(buf: Seq<u8>) -> Option<Seq<u8>> {
    let e = find_index(buf, 10);
    if e < buf.len() {
        let line = buf.take(e + 1);
        let j = find_index(line, 36);
        if j < line.len() {
            Some(line.skip(j))
        } else {
            None
        }
    } else {
        None
    }
}

/// What decoding leaves in the buffer: everything after the first line feed,
/// or the untouched buffer when no line feed is present.
pub open spec fn spec_remainder(buf: Seq<u8>) -> Seq<u8> {
    let e = find_index(buf, 10);
    if e < buf.len() {
        buf.skip(e + 1)
    } else {
        buf
    }
}

/// Relies on str::from_utf8: it succeeds exactly on valid UTF-8 input and
/// yields its decoding (stated over vstd's model of UTF-8).
#[verifier::external_body]
fn bytes_to_string(b: &[u8]) -> (r: Option<String>)
    ensures
        r is Some <==> valid_utf8(b@),
        r matches Some(s) ==> s@ == decode_utf8(b@),
{
    match core::str::from_utf8(b) {
        Ok(s) => Some(s.to_owned()),
        Err(_) => None,
    }
}

impl Default for NMEALineCodec {
    fn default() -> Self {
        NMEALineCodec {}
    }
}

impl NMEALineCodec {
    /// Whether a framed sentence passes checksum validation. Every sentence
    /// is accepted: the `*YY` field is parsed out of the frame but never
    /// verified, a deliberate policy kept so that recorded logs replay even
    /// when their checksums are stale.
    pub fn checksum(&mut self, line: &[u8]) -> (r: bool)
        ensures
            r,
    {
        true
    }

    /// Consume the first complete line from the head of `src` and return the
    /// sentence framed in it.
    ///
    /// * No line feed in `src`: nothing is consumed and `Ok(None)` says that
    ///   the frame is still incomplete.
    /// * A line feed but no `$` before it: the terminated span is discarded
    ///   as noise and this call still reports `Ok(None)`.
    /// * Otherwise the bytes from the first `$` through the line feed leave
    ///   the buffer and come back as a `String`, or as
    ///   `Err(DecodeError::InvalidUtf8)` when they are not UTF-8.
    pub fn decode(&mut self, src: &mut Vec<u8>) -> (r: Result<Option<String>, DecodeError>)
        ensures
            final(src)@ == spec_remainder(old(src)@),
            match spec_frame(old(src)@) {
                None => r == Ok::<Option<String>, DecodeError>(None),
                Some(f) => if valid_utf8(f) {
                    r matches Ok(o) && o matches Some(s) && s@ == decode_utf8(f)
                } else {
                    r == Err::<Option<String>, DecodeError>(DecodeError::InvalidUtf8)
                },
            },
    {
        let ghost buf = src@;
        let n = src.len();
        match find_byte(src.as_slice(), 10) {
            None => Ok(None),
            Some(e) => {
                assert(e < n);
                let mut tail = src.split_off(e + 1);
                core::mem::swap(src, &mut tail);
                let line = tail;
                proof {
                    assert(line@ =~= buf.take(e + 1));
                    assert(src@ =~= buf.skip(e + 1));
                }
                match find_byte(line.as_slice(), 36) {
                    None => Ok(None),
                    Some(j) => {
                        let sentence = vstd::slice::slice_subrange(line.as_slice(), j, line.len());
                        proof {
                            assert(sentence@ =~= line@.skip(j as int));
                        }
                        if self.checksum(sentence) {
                            match bytes_to_string(sentence) {
                                Some(s) => Ok(Some(s)),
                                None => Err(DecodeError::InvalidUtf8),
                            }
                        } else {
                            Ok(None)
                        }
                    },
                }
            },
        }
    }

    /// Serialize a sentence for the wire: the text itself, unchanged, then a
    /// carriage return and a line feed, whatever terminator the sentence
    /// originally carried.
    pub fn encode(&mut self, line: &str, dst: &mut Vec<u8>)
        ensures
            final(dst)@ == old(dst)@ + line.spec_bytes() + seq![13u8, 10u8],
    {
        let ghost before = dst@;
        dst.extend_from_slice(line.as_bytes());
        dst.push(13);
        dst.push(10);
        proof {
            assert(dst@ =~= before + line.spec_bytes() + seq![13u8, 10u8]);
        }
    }
}

/// Parser state of the nmea crate, carried opaquely: the fix data merged
/// from the sentences it has parsed.
#[verifier::external_type_specification]
#[verifier::external_body]
pub struct ExNmea(nmea::Nmea);

/// Whether the nmea crate accepts `line` as a supported, well-formed
/// sentence when parsed into a freshly created parser. Parsing is a pure
/// function of the sentence text, so the outcome depends on the line alone.
pub uninterp spec fn nmea_accepts(line: Seq<char>) -> bool;

/// Relies on nmea::Nmea::default and nmea::Nmea::parse: one sentence parsed
/// into a fresh parser succeeds or fails as a function of the sentence text
/// alone, and on success the parser holds the sentence's fix data.
#[verifier::external_body]
fn parse_into_fresh_nmea(line: &str) -> (r: Result<nmea::Nmea, String>)
    ensures
        r is Ok <==> nmea_accepts(line@),
{
    let mut nmea = nmea::Nmea::default();
    match nmea.parse(line) {
        Ok(_sentence_type) => Ok(nmea),
        Err(e) => Err(format!("Can't parse line\r{}\nError: {}", line, e)),
    }
}

/// Full semantic parse of one sentence, handed to the nmea crate: on success
/// the returned parser state carries the sentence's fix data, on failure the
/// error describes the line that was rejected.
pub fn extract_nmea(line: &str) -> (r: Result<nmea::Nmea, NmeaParseError>)
    ensures
        r is Ok <==> nmea_accepts(line@),
{
    match parse_into_fresh_nmea(line) {
        Ok(nmea) => Ok(nmea),
        Err(message) => Err(NmeaParseError { message }),
    }
}

/// Rejection of a sentence by the semantic parser, with a description of
/// the failure.
pub struct NmeaParseError {
    pub message: String,
}

/// A buffer that holds exactly one complete, terminated sentence — a line
/// feed at the end and nowhere else, the start marker `$` at position `j`
/// with only noise before it — decodes to exactly that sentence and is
/// drained completely. With the marker first (`j == 0`) the whole buffer is
/// the sentence.
pub proof fn lemma_decode_whole_sentence(buf: Seq<u8>, j: int)
    requires
        buf.len() > 0,
        buf[buf.len() - 1] == 10,
        forall|i: int| 0 <= i < buf.len() - 1 ==> buf[i] != 10,
        0 <= j < buf.len(),
        buf[j] == 36,
        forall|i: int| 0 <= i < j ==> buf[i] != 36,
    ensures
        spec_frame(buf) == Some(buf.skip(j)),
        spec_remainder(buf) == Seq::<u8>::empty(),
{
    lemma_find_index_is(buf, 10, buf.len() - 1);
    assert(buf.take((buf.len() - 1) + 1) =~= buf);
    lemma_find_index_is(buf, 36, j);
    assert(buf.skip(buf.len() as int) =~= Seq::<u8>::empty());
}

/// A buffer holding only the start of a sentence — no line feed yet — yields
/// no frame and keeps all of its bytes. Once the rest of the sentence
/// arrives (its line feed at the end), decoding the grown buffer yields the
/// whole sentence, and only the bytes beyond its line feed stay behind.
pub proof fn lemma_decode_incomplete_then_complete(b1: Seq<u8>, b2: Seq<u8>, tail: Seq<u8>)
    requires
        b1.len() > 0,
        b1[0] == 36,
        forall|i: int| 0 <= i < b1.len() ==> b1[i] != 10,
        b2.len() > 0,
        b2[b2.len() - 1] == 10,
        forall|i: int| 0 <= i < b2.len() - 1 ==> b2[i] != 10,
    ensures
        spec_frame(b1) is None,
        spec_remainder(b1) == b1,
        spec_frame(b1 + b2 + tail) == Some(b1 + b2),
        spec_remainder(b1 + b2 + tail) == tail,
{
    lemma_find_index(b1, 10);
    if find_index(b1, 10) < b1.len() {
        assert(false);
    }
    let grown = b1 + b2 + tail;
    lemma_find_index_is(b2 + tail, 10, b2.len() - 1);
    lemma_find_index_append(b1, b2 + tail, 10);
    assert(grown =~= b1 + (b2 + tail));
    let e = b1.len() + b2.len() - 1;
    assert(find_index(grown, 10) == e);
    assert(e < grown.len());
    let line = grown.take(e + 1);
    assert(line =~= b1 + b2);
    assert(line[0] == 36);
    lemma_find_index_is(line, 36, 0);
    assert(line.skip(0) =~= line);
    assert(grown.skip(e + 1) =~= tail);
}

} // verus!
