//! The decoded records, one per supported sentence kind, and the error
//! type. Every optional field is absent exactly when its source text
//! field was empty; no sentinel values stand in for "unknown".

use vstd::prelude::*;
use crate::num::Decimal;

verus! {

/// Why a sentence was rejected. Each decode either yields a record or
/// exactly one of these; nothing is retried and nothing is swallowed.
#[derive(Debug, Clone, Copy, PartialEq, Eq)]
pub enum ParseError {
    /// The input span is longer than the protocol ceiling of 102 bytes.
    Oversized,
    /// The envelope is malformed: no `$`, truncated ids, or no `*`
    /// followed by two checksum bytes.
    Malformed,
    /// The two bytes after `*` are not hexadecimal digits.
    BadChecksumHex,
    /// The XOR fold over the framed bytes differs from the declared value.
    ChecksumMismatch,
    /// A type decoder was handed a sentence with another message id.
    WrongMessageId,
    /// The data payload does not match the sentence kind's field grammar.
    Grammar,
}

/// A time of day, to nanosecond resolution.
#[derive(Debug, Clone, Copy, PartialEq, Eq)]
pub struct Time {
    pub hour: u8,
    pub minute: u8,
    pub second: u8,
    pub nanosecond: u32,
}

/// A calendar date with a two-digit year, as the wire format carries it;
/// century disambiguation is left to the caller.
#[derive(Debug, Clone, Copy, PartialEq, Eq)]
pub struct Date {
    pub day: u8,
    pub month: u8,
    pub year: u8,
}

/// A latitude or longitude, kept exactly as degrees plus decimal
/// minutes: the value is `degrees + minutes/60`, negated when
/// `negative` is set (southern or western hemisphere).
#[derive(Debug, Clone, Copy, PartialEq, Eq)]
pub struct Angle {
    pub negative: bool,
    pub degrees: u8,
    pub minutes: Decimal,
}

/// A ground speed in knots, kept exactly as the ratio `numer/denom`
/// (negated when `negative` is set) so that a km/h reading divided by
/// 1.852 loses nothing.
#[derive(Debug, Clone, Copy, PartialEq, Eq)]
pub struct Knots {
    pub negative: bool,
    pub numer: u128,
    pub denom: u128,
}

/// Fix quality reported by a positioning-fix sentence, digit `0`-`8`.
#[derive(Debug, Clone, Copy, PartialEq, Eq)]
pub enum FixType {
    Invalid,
    Gps,
    DGps,
    Pps,
    Rtk,
    FloatRtk,
    Estimated,
    Manual,
    Simulation,
}

/// The satellite constellation a sentence speaks of, chosen by its
/// talker id.
#[derive(Debug, Clone, Copy, PartialEq, Eq)]
pub enum GnssType {
    Galileo,
    Gps,
    Glonass,
}

/// One satellite block of a satellites-in-view sentence.
#[derive(Debug, Clone, Copy, PartialEq, Eq)]
pub struct Satellite {
    pub gnss_type: GnssType,
    pub prn: u32,
    pub elevation: Option<i32>,
    pub azimuth: Option<i32>,
    pub snr: Option<i32>,
}

/// One satellites-in-view sentence: its place in the view group and up
/// to four satellite blocks, trailing slots absent when fewer are
/// reported.
#[derive(Debug, Clone, PartialEq, Eq)]
pub struct GsvData {
    pub gnss_type: GnssType,
    pub number_of_sentences: u16,
    pub sentence_num: u16,
    pub _sats_in_view: u16,
    pub sats_info: [Option<Satellite>; 4],
}

/// A positioning-fix sentence.
#[derive(Debug, Clone, PartialEq, Eq)]
pub struct GgaData {
    pub fix_time: Option<Time>,
    pub fix_type: Option<FixType>,
    pub latitude: Option<Angle>,
    pub longitude: Option<Angle>,
    pub fix_satellites: Option<u32>,
    pub hdop: Option<Decimal>,
    pub altitude: Option<Decimal>,
    pub geoid_height: Option<Decimal>,
}

/// Status of fix in a recommended-minimum sentence.
#[derive(Debug, Clone, Copy, PartialEq, Eq)]
pub enum RmcStatusOfFix {
    Autonomous,
    Differential,
    Invalid,
}

/// A recommended-minimum navigation sentence.
#[derive(Debug, Clone, PartialEq, Eq)]
pub struct RmcData {
    pub fix_time: Option<Time>,
    pub fix_date: Option<Date>,
    pub status_of_fix: Option<RmcStatusOfFix>,
    pub lat: Option<Angle>,
    pub lon: Option<Angle>,
    pub speed_over_ground: Option<Decimal>,
    pub true_course: Option<Decimal>,
}

/// Selection mode of an active-satellites sentence: manual or automatic.
#[derive(Debug, Clone, Copy, PartialEq, Eq)]
pub enum GsaMode1 {
    Manual,
    Automatic,
}

/// Fix mode of an active-satellites sentence.
#[derive(Debug, Clone, Copy, PartialEq, Eq)]
pub enum GsaMode2 {
    NoFix,
    Fix2D,
    Fix3D,
}

/// An active-satellites sentence: the two modes, the compact list of
/// reported PRNs (absent slots dropped), and the three dilution values,
/// present all together or not at all.
#[derive(Debug, Clone, PartialEq, Eq)]
pub struct GsaData {
    pub mode1: GsaMode1,
    pub mode2: GsaMode2,
    pub fix_sats_prn: Vec<u32>,
    pub pdop: Option<Decimal>,
    pub hdop: Option<Decimal>,
    pub vdop: Option<Decimal>,
}

/// A ground-velocity sentence: true course, and speed preferring the
/// knots reading over the km/h one.
#[derive(Debug, Clone, PartialEq, Eq)]
pub struct VtgData {
    pub true_course: Option<Decimal>,
    pub speed_over_ground: Option<Knots>,
}

/// Positioning system mode indicator of a geographic-position sentence.
#[derive(Debug, Clone, Copy, PartialEq, Eq)]
pub enum PosSystemIndicator {
    Autonomous,
    Differential,
    EstimatedMode,
    ManualInput,
    DataNotValid,
}

/// A geographic-position sentence; position and time are required here,
/// unlike the other grammars.
#[derive(Debug, Clone, PartialEq, Eq)]
pub struct GllData {
    pub latitude: Angle,
    pub longitude: Angle,
    pub fix_time: Time,
    pub mode: Option<PosSystemIndicator>,
}

/// The tagged outcome of one decode: exactly one variant per call, with
/// unknown message ids carried through as raw bytes rather than failing.
#[derive(Debug, Clone, PartialEq, Eq)]
pub enum ParseResult {
    GGA(GgaData),
    RMC(RmcData),
    GSV(GsvData),
    GSA(GsaData),
    VTG(VtgData),
    GLL(GllData),
    Unsupported(Vec<u8>),
}

impl PosSystemIndicator {
    /// Tag for a mode-indicator letter; anything unrecognized means the
    /// data is not to be trusted.
    pub fn from_letter(b: u8) -> (r: PosSystemIndicator)
        ensures
            r == spec_pos_system(b),
    {
        match b {
            0x41 => PosSystemIndicator::Autonomous,
            0x44 => PosSystemIndicator::Differential,
            0x45 => PosSystemIndicator::EstimatedMode,
            0x4D => PosSystemIndicator::ManualInput,
            0x4E => PosSystemIndicator::DataNotValid,
            _ => PosSystemIndicator::DataNotValid,
        }
    }
}

impl From<char> for PosSystemIndicator {
    /// Tag for a mode-indicator character, as `from_letter`.
    fn from(b: char) -> (r: PosSystemIndicator) {
        if b == 'A' {
            PosSystemIndicator::Autonomous
        } else if b == 'D' {
            PosSystemIndicator::Differential
        } else if b == 'E' {
            PosSystemIndicator::EstimatedMode
        } else if b == 'M' {
            PosSystemIndicator::ManualInput
        } else {
            PosSystemIndicator::DataNotValid
        }
    }
}

impl vstd::std_specs::convert::FromSpecImpl<char> for PosSystemIndicator {
    open spec fn obeys_from_spec() -> bool {
        true
    }

    open spec fn from_spec(b: char) -> PosSystemIndicator {
        if b == 'A' {
            PosSystemIndicator::Autonomous
        } else if b == 'D' {
            PosSystemIndicator::Differential
        } else if b == 'E' {
            PosSystemIndicator::EstimatedMode
        } else if b == 'M' {
            PosSystemIndicator::ManualInput
        } else {
            PosSystemIndicator::DataNotValid
        }
    }
}

/// The mode tag each indicator letter stands for.
pub open spec fn spec_pos_system(b: u8) -> PosSystemIndicator {
    if b == 0x41 {
        PosSystemIndicator::Autonomous
    } else if b == 0x44 {
        PosSystemIndicator::Differential
    } else if b == 0x45 {
        PosSystemIndicator::EstimatedMode
    } else if b == 0x4D {
        PosSystemIndicator::ManualInput
    } else {
        PosSystemIndicator::DataNotValid
    }
}

} // verus!
