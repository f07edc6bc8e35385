//! The recommended-minimum navigation sentence: time, fix status,
//! position, speed, course and date.

use vstd::prelude::*;
use crate::fields::{
    comma_at, expect_comma, opt_date, opt_decimal, opt_time, parse_lat_lon, spec_opt_date,
    spec_opt_decimal, spec_opt_lat_lon, spec_opt_time,
};
use crate::frame::{id_is, NmeaSentence};
use crate::records::{ParseError, RmcData, RmcStatusOfFix};

verus! {

/// The status tag each fix-status letter stands for; only `A`, `D` and
/// `V` are admitted by the grammar.
pub open spec fn spec_rmc_status(b: u8) -> RmcStatusOfFix {
    if b == 0x41 {
        RmcStatusOfFix::Autonomous
    } else if b == 0x44 {
        RmcStatusOfFix::Differential
    } else {
        RmcStatusOfFix::Invalid
    }
}

/// The recommended-minimum payload grammar, field by field: optional
/// time, a required status letter `A`, `D` or `V`, optional position,
/// optional speed over ground in knots, optional true course, and an
/// optional date, every field closed by a comma. Trailing magnetic
/// variation and mode fields are not decoded.
pub open spec fn spec_rmc(s: Seq<u8>) -> Option<RmcData> {
    let (time, p0) = spec_opt_time(s, 0);
    if !comma_at(s, p0) {
        None
    } else {
        let p1 = p0 + 1;
        if !(p1 < s.len() && (s[p1] == 0x41 || s[p1] == 0x44 || s[p1] == 0x56)) {
            None
        } else {
            let status = spec_rmc_status(s[p1]);
            if !comma_at(s, p1 + 1) {
                None
            } else {
                match spec_opt_lat_lon(s, p1 + 2) {
                    None => None,
                    Some((ll, p2)) => {
                        if !comma_at(s, p2) {
                            None
                        } else {
                            let (speed, p3) = spec_opt_decimal(s, p2 + 1);
                            if !comma_at(s, p3) {
                                None
                            } else {
                                let (course, p4) = spec_opt_decimal(s, p3 + 1);
                                if !comma_at(s, p4) {
                                    None
                                } else {
                                    let (date, p5) = spec_opt_date(s, p4 + 1);
                                    if !comma_at(s, p5) {
                                        None
                                    } else {
                                        Some(
                                            RmcData {
                                                fix_time: time,
                                                fix_date: date,
                                                status_of_fix: Some(status),
                                                lat: (match ll {
                                                    Some(x) => Some(x.0),
                                                    None => None,
                                                }),
                                                lon: (match ll {
                                                    Some(x) => Some(x.1),
                                                    None => None,
                                                }),
                                                speed_over_ground: speed,
                                                true_course: course,
                                            },
                                        )
                                    }
                                }
                            }
                        }
                    },
                }
            }
        }
    }
}

/// Decode a recommended-minimum sentence, checking the message id first.
pub fn parse_rmc(sentence: &NmeaSentence) -> (r: Result<RmcData, ParseError>)
    ensures
        sentence.message_id@ != seq![0x52u8, 0x4Du8, 0x43u8] ==> r == Err::<RmcData, ParseError>(
            ParseError::WrongMessageId,
        ),
        sentence.message_id@ == seq![0x52u8, 0x4Du8, 0x43u8] ==> (match spec_rmc(
            sentence.data@,
        ) {
            Some(g) => r == Ok::<RmcData, ParseError>(g),
            None => r == Err::<RmcData, ParseError>(ParseError::Grammar),
        }),
{
    if !id_is(&sentence.message_id, 0x52, 0x4D, 0x43) {
        return Err(ParseError::WrongMessageId);
    }
    let s = sentence.data.as_slice();
    let _len: usize = s.len();
    let (time, p0) = opt_time(s, 0);
    if !expect_comma(s, p0) {
        return Err(ParseError::Grammar);
    }
    let p1 = p0 + 1;
    if !(p1 < s.len() && (s[p1] == 0x41 || s[p1] == 0x44 || s[p1] == 0x56)) {
        return Err(ParseError::Grammar);
    }
    let status = match s[p1] {
        0x41 => RmcStatusOfFix::Autonomous,
        0x44 => RmcStatusOfFix::Differential,
        _ => RmcStatusOfFix::Invalid,
    };
    if !expect_comma(s, p1 + 1) {
        return Err(ParseError::Grammar);
    }
    match parse_lat_lon(s, p1 + 2) {
        None => Err(ParseError::Grammar),
        Some((ll, p2)) => {
            if !expect_comma(s, p2) {
                return Err(ParseError::Grammar);
            }
            let (speed, p3) = opt_decimal(s, p2 + 1);
            if !expect_comma(s, p3) {
                return Err(ParseError::Grammar);
            }
            let (course, p4) = opt_decimal(s, p3 + 1);
            if !expect_comma(s, p4) {
                return Err(ParseError::Grammar);
            }
            let (date, p5) = opt_date(s, p4 + 1);
            if !expect_comma(s, p5) {
                return Err(ParseError::Grammar);
            }
            Ok(RmcData {
                fix_time: time,
                fix_date: date,
                status_of_fix: Some(status),
                lat: (match ll {
                    Some(x) => Some(x.0),
                    None => None,
                }),
                lon: (match ll {
                    Some(x) => Some(x.1),
                    None => None,
                }),
                speed_over_ground: speed,
                true_course: course,
            })
        },
    }
}

} // verus!
