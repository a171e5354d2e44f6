//! Calls into code that is not proved here: the standard library's case
//! mappings, and the crates for regular expressions, calendar dates,
//! checksums and compression.

use crate::calendar::{is_time, millis_apart, Timestamp};
use chrono::{NaiveDate, NaiveDateTime};
use regex::Regex;
use std::io::Write;
use vstd::prelude::*;

verus! {

/// The pattern a compiled expression was made from (`regex::Regex::as_str`).
pub uninterp spec fn regex_pattern(re: Regex) -> Seq<char>;

/// Whether `regex::Regex::new` accepts a pattern.
pub uninterp spec fn regex_compiles(pattern: Seq<char>) -> bool;

/// What `regex::Regex::captures` finds: nothing, or the text of every group
/// in the order of the opening parentheses, the whole match first. A group
/// that took no part in the match has no text.
pub uninterp spec fn regex_captures(pattern: Seq<char>, text: Seq<char>) -> Option<
    Seq<Option<Seq<char>>>,
>;

/// The text with every character replaced by its lower case mapping
/// (`str::to_lowercase`).
pub uninterp spec fn lowercase(text: Seq<char>) -> Seq<char>;

/// The text with every character replaced by its upper case mapping
/// (`str::to_uppercase`).
pub uninterp spec fn uppercase(text: Seq<char>) -> Seq<char>;

/// Whether `zstd::stream::Encoder`, with a compression level and a number of
/// worker threads, can write a frame for some bytes: on some machine, and with
/// its threads in some order.
pub uninterp spec fn zstd_writes(raw: Seq<u8>, level: i32, workers: u32, frame: Seq<u8>) -> bool;

/// What `zstd::stream::decode_all` makes of some bytes: the decompressed
/// content, or the text of its error.
pub uninterp spec fn zstd_decoded(stored: Seq<u8>) -> Result<Seq<u8>, Seq<char>>;

/// `regex::Regex`, a compiled regular expression.
#[verifier::external_type_specification]
#[verifier::external_body]
pub struct ExRegex(Regex);

/// `regex::Error`, the reason why a pattern does not compile.
#[verifier::external_type_specification]
#[verifier::external_body]
pub struct ExRegexError(regex::Error);

/// The text of one optional group.
pub open spec fn group_view(group: Option<String>) -> Option<Seq<char>> {
    match group {
        Some(text) => Some(text@),
        None => None,
    }
}

/// The texts of the groups of a match.
pub open spec fn groups_view(groups: Option<Vec<Option<String>>>) -> Option<
    Seq<Option<Seq<char>>>,
> {
    match groups {
        Some(list) => Some(list@.map_values(|g: Option<String>| group_view(g))),
        None => None,
    }
}

/// The bytes or the error text of an attempt.
pub open spec fn bytes_view(result: Result<Vec<u8>, String>) -> Result<Seq<u8>, Seq<char>> {
    match result {
        Ok(bytes) => Ok(bytes@),
        Err(text) => Err(text@),
    }
}

/// The register of CRC-32, with the polynomial of IEEE 802.3 and the lowest bit
/// first, when some bits have been shifted out of it.
pub open spec fn crc_shifted(register: u32, bits: nat) -> u32
    decreases bits,
{
    if bits == 0 {
        register
    } else {
        let before = crc_shifted(register, (bits - 1) as nat);
        if before & 1 == 1 {
            (before >> 1) ^ 0xedb8_8320
        } else {
            before >> 1
        }
    }
}

/// The register of CRC-32 after some bytes: all bits are set at first, and each
/// byte is added to it and shifted out.
pub open spec fn crc_register(bytes: Seq<u8>) -> u32
    decreases bytes.len(),
{
    if bytes.len() == 0 {
        0xffff_ffff
    } else {
        crc_shifted(crc_register(bytes.drop_last()) ^ bytes.last() as u32, 8)
    }
}

/// The CRC-32 of some bytes: the register after them, with every bit turned.
pub open spec fn crc32_of(bytes: Seq<u8>) -> u32 {
    crc_register(bytes) ^ 0xffff_ffff
}

/// Some bytes are a frame of the given content that the encoder of zstd can
/// write with its settings. At zstd's default level, and on no worker threads,
/// it is the only one.
pub open spec fn is_zstd_frame(frame: Seq<u8>, raw: Seq<u8>, settings: ZstdSettings) -> bool {
    &&& decodes_to(frame, raw)
    &&& zstd_writes(raw, settings.level, settings.workers, frame)
    &&& settings.level == ZSTD_DEFAULT_LEVEL && settings.workers == 0
        ==> forall|other: Seq<u8>| #[trigger]
        zstd_writes(raw, settings.level, settings.workers, other) ==> other == frame
}

/// Whether some bytes decompress to the given content.
pub open spec fn decodes_to(stored: Seq<u8>, raw: Seq<u8>) -> bool {
    zstd_decoded(stored) matches Ok(content) && content == raw
}

/// Calls `regex::Regex::new`. Claims that a pattern either always compiles or
/// never does, and that the result remembers its pattern.
#[verifier::external_body]
pub(crate) fn compile(pattern: &str) -> (re: Result<Regex, regex::Error>)
    ensures
        re is Ok <==> regex_compiles(pattern@),
        re matches Ok(r) ==> regex_pattern(r) == pattern@,
{
    Regex::new(pattern)
}

/// Calls `regex::Regex::captures` and copies the text of each group. Claims
/// that the groups depend on the pattern and the text alone.
#[verifier::external_body]
pub(crate) fn captures(re: &Regex, text: &str) -> (groups: Option<Vec<Option<String>>>)
    ensures
        groups_view(groups) == regex_captures(regex_pattern(*re), text@),
{
    re.captures(text).map(|caps| caps.iter().map(|m| m.map(|m| m.as_str().to_string())).collect())
}

/// Calls `str::to_lowercase`. Claims that the result depends on the text alone.
#[verifier::external_body]
pub(crate) fn to_lower(text: &str) -> (lower: String)
    ensures
        lower@ == lowercase(text@),
{
    text.to_lowercase()
}

/// Calls `str::to_uppercase`. Claims that the result depends on the text alone.
#[verifier::external_body]
pub(crate) fn to_upper(text: &str) -> (upper: String)
    ensures
        upper@ == uppercase(text@),
{
    text.to_uppercase()
}

/// Calls `crc32fast::hash`. Claims that the result is the CRC-32 of the bytes, as
/// IEEE 802.3 has it.
#[verifier::external_body]
pub(crate) fn crc32(bytes: &[u8]) -> (crc: u32)
    ensures
        crc == crc32_of(bytes@),
{
    crc32fast::hash(bytes)
}

/// Calls `zstd::stream::decode_all`. Claims that the content, or the error,
/// depends on the bytes alone.
#[verifier::external_body]
pub(crate) fn zstd_decode(stored: &[u8]) -> (raw: Result<Vec<u8>, String>)
    ensures
        bytes_view(raw) == zstd_decoded(stored@),
{
    zstd::stream::decode_all(stored).map_err(|source| source.to_string())
}

/// Where the encoder of zstd failed, with the text of its error.
#[derive(Debug, Clone)]
pub enum ZstdFailure {
    /// `Encoder::new`
    Init(String),
    /// `Encoder::multithread`
    Workers(String),
    /// `Encoder::write_all`
    Write(String),
    /// `Encoder::finish`
    Finish(String),
}

/// The compression level that zstd has for its default.
pub const ZSTD_DEFAULT_LEVEL: i32 = 3;

/// How `zstd::stream::Encoder` compresses.
#[derive(Debug, Clone, Copy, PartialEq, Eq, Structural)]
pub struct ZstdSettings {
    /// The compression level.
    pub level: i32,
    /// The number of worker threads; none for the thread of the caller.
    pub workers: u32,
}

/// Calls `zstd::stream::Encoder`: makes one for the level, sets its number of
/// worker threads, writes all of the bytes and finishes the frame. Claims that
/// decoding the frame gives the bytes back, that it is one that the encoder can
/// write for these bytes with these settings, and that it can write no other at
/// zstd's default level on the thread of the caller. With worker threads, where
/// the blocks end depends on their timing; at higher levels it depends on the
/// byte order of the machine. Nothing is claimed of when one of the calls fails:
/// that depends on the memory and the threads of the machine.
#[verifier::external_body]
pub(crate) fn zstd_encode(raw: &[u8], settings: ZstdSettings) -> (stored: Result<
    Vec<u8>,
    ZstdFailure,
>)
    ensures
        stored matches Ok(frame) ==> decodes_to(frame@, raw@),
        stored matches Ok(frame) ==> zstd_writes(
            raw@,
            settings.level,
            settings.workers,
            frame@,
        ),
        stored matches Ok(frame) ==> settings.level == ZSTD_DEFAULT_LEVEL && settings.workers == 0
            ==> forall|other: Seq<u8>| #[trigger]
            zstd_writes(raw@, settings.level, settings.workers, other) ==> other == frame@,
{
    let mut encoder = zstd::stream::Encoder::new(Vec::new(), settings.level)
        .map_err(|e| ZstdFailure::Init(e.to_string()))?;
    encoder.multithread(settings.workers).map_err(|e| ZstdFailure::Workers(e.to_string()))?;
    encoder.write_all(raw).map_err(|e| ZstdFailure::Write(e.to_string()))?;
    encoder.finish().map_err(|e| ZstdFailure::Finish(e.to_string()))
}

/// Calls `chrono::NaiveDate::from_ymd_opt` and
/// `chrono::NaiveDate::and_hms_milli_opt`. Claims that they accept the dates of
/// the Gregorian calendar from the first to the last year, and the times of a
/// day with their leap seconds, and nothing else.
#[verifier::external_body]
pub(crate) fn time_exists(t: &Timestamp) -> (found: bool)
    ensures
        found == is_time(*t),
{
    NaiveDate::from_ymd_opt(t.year, t.month, t.day)
        .and_then(|date| date.and_hms_milli_opt(t.hour, t.minute, t.second, t.milli))
        .is_some()
}

/// Calls `chrono::NaiveDateTime::signed_duration_since` on two points in time
/// and `chrono::TimeDelta::num_milliseconds` on the result. Claims that it is
/// the number of days between the dates, in milliseconds, and the difference of
/// the times of day, with a leap second counted where the earlier time of day
/// is within one.
#[verifier::external_body]
pub(crate) fn millis_between(later: &Timestamp, earlier: &Timestamp) -> (millis: i64)
    requires
        is_time(*later),
        is_time(*earlier),
    ensures
        millis == millis_apart(*later, *earlier),
{
    let at = |t: &Timestamp| -> Option<NaiveDateTime> {
        NaiveDate::from_ymd_opt(t.year, t.month, t.day)?
            .and_hms_milli_opt(t.hour, t.minute, t.second, t.milli)
    };
    at(later).unwrap().signed_duration_since(at(earlier).unwrap()).num_milliseconds()
}

} // verus!
