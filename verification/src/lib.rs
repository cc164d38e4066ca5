//! Replay of recorded NMEA sentence logs: framing raw bytes into sentences,
//! extracting the embedded time of day, pacing emission by the recorded
//! inter-sentence gaps, and fanning the paced stream out to many consumers.

pub mod broadcast;
pub mod nmea_line_codec;
pub mod nmea_reader;
pub mod pacing;
pub mod scan;
