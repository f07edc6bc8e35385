//! The geographic-position sentence: required position and time, a
//! required validity flag, and an optional positioning-mode letter.

use vstd::prelude::*;
use crate::fields::{comma_at, do_parse_lat_lon, expect_comma, parse_hms, spec_hms, spec_lat_lon};
use crate::frame::{id_is, NmeaSentence};
use crate::num::{find_byte, find_byte_exec};
use crate::records::{GllData, ParseError, PosSystemIndicator, spec_pos_system};

verus! {

/// The geographic-position payload grammar: a required position block,
/// a comma, a required time, anything up to the next comma ignored, a
/// required `A` validity flag (`V` fails the decode), a comma, and an
/// optional mode letter `A`, `D`, `E` or `M` that must be closed by a
/// comma to count; an unrecognized or unterminated letter leaves the
/// mode absent.
pub open spec fn spec_gll(s: Seq<u8>) -> Option<GllData> {
    match spec_lat_lon(s, 0) {
        None => None,
        Some((ll, p0)) => {
            if !comma_at(s, p0) {
                None
            } else {
                match spec_hms(s, p0 + 1) {
                    None => None,
                    Some((time, p1)) => {
                        let p2 = find_byte(s, p1, 0x2C);
                        if !comma_at(s, p2) {
                            None
                        } else {
                            let p3 = p2 + 1;
                            if !(p3 < s.len() && s[p3] == 0x41) {
                                None
                            } else if !comma_at(s, p3 + 1) {
                                None
                            } else {
                                let p4 = p3 + 2;
                                let mode = if p4 + 1 < s.len() && (s[p4] == 0x41 || s[p4] == 0x44
                                    || s[p4] == 0x45 || s[p4] == 0x4D) && s[p4 + 1] == 0x2C {
                                    Some(spec_pos_system(s[p4]))
                                } else {
                                    None
                                };
                                Some(
                                    GllData {
                                        latitude: ll.0,
                                        longitude: ll.1,
                                        fix_time: time,
                                        mode: mode,
                                    },
                                )
                            }
                        }
                    },
                }
            }
        },
    }
}

/// Decode a geographic-position sentence, checking the message id first.
pub fn parse_gll(sentence: &NmeaSentence) -> (r: Result<GllData, ParseError>)
    ensures
        sentence.message_id@ != seq![0x47u8, 0x4Cu8, 0x4Cu8] ==> r == Err::<GllData, ParseError>(
            ParseError::WrongMessageId,
        ),
        sentence.message_id@ == seq![0x47u8, 0x4Cu8, 0x4Cu8] ==> (match spec_gll(
            sentence.data@,
        ) {
            Some(g) => r == Ok::<GllData, ParseError>(g),
            None => r == Err::<GllData, ParseError>(ParseError::Grammar),
        }),
{
    if !id_is(&sentence.message_id, 0x47, 0x4C, 0x4C) {
        return Err(ParseError::WrongMessageId);
    }
    let s = sentence.data.as_slice();
    let _len: usize = s.len();
    match do_parse_lat_lon(s, 0) {
        None => Err(ParseError::Grammar),
        Some((ll, p0)) => {
            if !expect_comma(s, p0) {
                return Err(ParseError::Grammar);
            }
            match parse_hms(s, p0 + 1) {
                None => Err(ParseError::Grammar),
                Some((time, p1)) => {
                    let p2 = find_byte_exec(s, p1, 0x2C);
                    if !expect_comma(s, p2) {
                        return Err(ParseError::Grammar);
                    }
                    let p3 = p2 + 1;
                    if !(p3 < s.len() && s[p3] == 0x41) {
                        return Err(ParseError::Grammar);
                    }
                    if !expect_comma(s, p3 + 1) {
                        return Err(ParseError::Grammar);
                    }
                    let p4 = p3 + 2;
                    let mode: Option<PosSystemIndicator> = if p4 < s.len() && p4 + 1 < s.len()
                        && (s[p4] == 0x41
                        || s[p4] == 0x44 || s[p4] == 0x45 || s[p4] == 0x4D) && s[p4 + 1] == 0x2C {
                        Some(PosSystemIndicator::from_letter(s[p4]))
                    } else {
                        None
                    };
                    Ok(GllData { latitude: ll.0, longitude: ll.1, fix_time: time, mode })
                },
            }
        },
    }
}

} // verus!
