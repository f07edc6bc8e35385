//! The positioning-fix sentence: time, position, fix quality, satellite
//! count, dilution, altitude and geoid height.

use vstd::prelude::*;
use crate::fields::{
    comma_at, expect_comma, field_decimal, opt_char, opt_decimal, opt_time, opt_uint,
    parse_lat_lon, spec_field_decimal, spec_opt_char, spec_opt_decimal, spec_opt_lat_lon,
    spec_opt_time, spec_opt_uint,
};
use crate::frame::{id_is, NmeaSentence};
use crate::records::{FixType, GgaData, ParseError};

verus! {

/// The fix-quality tag each digit `0`-`8` stands for.
pub open spec fn spec_fix_type(b: u8) -> FixType {
    if b == 0x31 {
        FixType::Gps
    } else if b == 0x32 {
        FixType::DGps
    } else if b == 0x33 {
        FixType::Pps
    } else if b == 0x34 {
        FixType::Rtk
    } else if b == 0x35 {
        FixType::FloatRtk
    } else if b == 0x36 {
        FixType::Estimated
    } else if b == 0x37 {
        FixType::Manual
    } else if b == 0x38 {
        FixType::Simulation
    } else {
        FixType::Invalid
    }
}

fn fix_type_of(b: u8) -> (r: FixType)
    ensures
        r == spec_fix_type(b),
{
    match b {
        0x31 => FixType::Gps,
        0x32 => FixType::DGps,
        0x33 => FixType::Pps,
        0x34 => FixType::Rtk,
        0x35 => FixType::FloatRtk,
        0x36 => FixType::Estimated,
        0x37 => FixType::Manual,
        0x38 => FixType::Simulation,
        _ => FixType::Invalid,
    }
}

/// The positioning-fix payload grammar, field by field: optional time,
/// optional position, a required fix-quality digit `0`-`8`, optional
/// satellite count, optional dilution, then altitude and geoid height
/// each with an optional `M` unit letter. Anything after the second
/// unit letter is ignored.
pub open spec fn spec_gga(s: Seq<u8>) -> Option<GgaData> {
    let (time, p0) = spec_opt_time(s, 0);
    if !comma_at(s, p0) {
        None
    } else {
        match spec_opt_lat_lon(s, p0 + 1) {
            None => None,
            Some((ll, p2)) => {
                if !comma_at(s, p2) {
                    None
                } else {
                    let p3 = p2 + 1;
                    if !(p3 < s.len() && 0x30 <= s[p3] <= 0x38) {
                        None
                    } else {
                        let fix = spec_fix_type(s[p3]);
                        if !comma_at(s, p3 + 1) {
                            None
                        } else {
                            let (sats, p6) = spec_opt_uint(s, p3 + 2, 0xFFFF_FFFF);
                            if !comma_at(s, p6) {
                                None
                            } else {
                                let (hdop, p8) = spec_opt_decimal(s, p6 + 1);
                                if !comma_at(s, p8) {
                                    None
                                } else {
                                    match spec_field_decimal(s, p8 + 1) {
                                        None => None,
                                        Some((alt, p10)) => {
                                            if !comma_at(s, p10) {
                                                None
                                            } else {
                                                let p11 = spec_opt_char(s, p10 + 1, 0x4D);
                                                if !comma_at(s, p11) {
                                                    None
                                                } else {
                                                    match spec_field_decimal(s, p11 + 1) {
                                                        None => None,
                                                        Some((geoid, p13)) => {
                                                            if !comma_at(s, p13) {
                                                                None
                                                            } else {
                                                                Some(
                                                                    GgaData {
                                                                        fix_time: time,
                                                                        fix_type: Some(fix),
                                                                        latitude: (match ll {
                                                                            Some(x) => Some(x.0),
                                                                            None => None,
                                                                        }),
                                                                        longitude: (match ll {
                                                                            Some(x) => Some(x.1),
                                                                            None => None,
                                                                        }),
                                                                        fix_satellites: (match sats {
                                                                            Some(v) => Some(
                                                                                v as u32,
                                                                            ),
                                                                            None => None,
                                                                        }),
                                                                        hdop: hdop,
                                                                        altitude: alt,
                                                                        geoid_height: geoid,
                                                                    },
                                                                )
                                                            }
                                                        },
                                                    }
                                                }
                                            }
                                        },
                                    }
                                }
                            }
                        }
                    }
                }
            },
        }
    }
}

/// Decode a positioning-fix sentence, checking the message id first.
pub fn parse_gga(sentence: &NmeaSentence) -> (r: Result<GgaData, ParseError>)
    ensures
        sentence.message_id@ != seq![0x47u8, 0x47u8, 0x41u8] ==> r == Err::<GgaData, ParseError>(
            ParseError::WrongMessageId,
        ),
        sentence.message_id@ == seq![0x47u8, 0x47u8, 0x41u8] ==> (match spec_gga(
            sentence.data@,
        ) {
            Some(g) => r == Ok::<GgaData, ParseError>(g),
            None => r == Err::<GgaData, ParseError>(ParseError::Grammar),
        }),
{
    if !id_is(&sentence.message_id, 0x47, 0x47, 0x41) {
        return Err(ParseError::WrongMessageId);
    }
    let s = sentence.data.as_slice();
    let _len: usize = s.len();
    let (time, p0) = opt_time(s, 0);
    if !expect_comma(s, p0) {
        return Err(ParseError::Grammar);
    }
    let ll_step = parse_lat_lon(s, p0 + 1);
    match ll_step {
        None => return Err(ParseError::Grammar),
        Some((ll, p2)) => {
            if !expect_comma(s, p2) {
                return Err(ParseError::Grammar);
            }
            let p3 = p2 + 1;
            if !(p3 < s.len() && 0x30 <= s[p3] && s[p3] <= 0x38) {
                return Err(ParseError::Grammar);
            }
            let fix = fix_type_of(s[p3]);
            if !expect_comma(s, p3 + 1) {
                return Err(ParseError::Grammar);
            }
            let (sats, p6) = opt_uint(s, p3 + 2, 0xFFFF_FFFF);
            if !expect_comma(s, p6) {
                return Err(ParseError::Grammar);
            }
            let (hdop, p8) = opt_decimal(s, p6 + 1);
            if !expect_comma(s, p8) {
                return Err(ParseError::Grammar);
            }
            match field_decimal(s, p8 + 1) {
                None => return Err(ParseError::Grammar),
                Some((alt, p10)) => {
                    if !expect_comma(s, p10) {
                        return Err(ParseError::Grammar);
                    }
                    let p11 = opt_char(s, p10 + 1, 0x4D);
                    if !expect_comma(s, p11) {
                        return Err(ParseError::Grammar);
                    }
                    match field_decimal(s, p11 + 1) {
                        None => return Err(ParseError::Grammar),
                        Some((geoid, p13)) => {
                            if !expect_comma(s, p13) {
                                return Err(ParseError::Grammar);
                            }
                            return Ok(GgaData {
                                fix_time: time,
                                fix_type: Some(fix),
                                latitude: (match ll {
                                    Some(x) => Some(x.0),
                                    None => None,
                                }),
                                longitude: (match ll {
                                    Some(x) => Some(x.1),
                                    None => None,
                                }),
                                fix_satellites: (match sats {
                                    Some(v) => Some(v as u32),
                                    None => None,
                                }),
                                hdop,
                                altitude: alt,
                                geoid_height: geoid,
                            });
                        },
                    }
                },
            }
        },
    }
}

} // verus!
