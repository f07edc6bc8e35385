//! The satellites-in-view sentence: the sentence's place in its view
//! group and up to four repeated satellite blocks.

use vstd::prelude::*;
use crate::fields::{comma_at, expect_comma, opt_uint, spec_opt_uint};
use crate::frame::{id_is, NmeaSentence};
use crate::num::{parse_uint, spec_uint};
use crate::records::{GnssType, GsvData, ParseError, Satellite};

verus! {

/// One satellite block: a required PRN, then optional elevation,
/// azimuth and signal-to-noise values, each closed by a comma; the
/// comma after the last value is required only when more bytes follow.
pub open spec fn spec_sat(s: Seq<u8>, pos: int, g: GnssType) -> Option<(Satellite, int)> {
    match spec_uint(s, pos, 0xFFFF_FFFF) {
        None => None,
        Some((prn, p0)) => {
            if !comma_at(s, p0) {
                None
            } else {
                let (elev, p1) = spec_opt_uint(s, p0 + 1, 0x7FFF_FFFF);
                if !comma_at(s, p1) {
                    None
                } else {
                    let (azim, p2) = spec_opt_uint(s, p1 + 1, 0x7FFF_FFFF);
                    if !comma_at(s, p2) {
                        None
                    } else {
                        let (snr, p3) = spec_opt_uint(s, p2 + 1, 0x7FFF_FFFF);
                        let sat = Satellite {
                            gnss_type: g,
                            prn: prn as u32,
                            elevation: (match elev {
                                Some(v) => Some(v as i32),
                                None => None,
                            }),
                            azimuth: (match azim {
                                Some(v) => Some(v as i32),
                                None => None,
                            }),
                            snr: (match snr {
                                Some(v) => Some(v as i32),
                                None => None,
                            }),
                        };
                        if p3 < s.len() {
                            if s[p3] == 0x2C {
                                Some((sat, p3 + 1))
                            } else {
                                None
                            }
                        } else {
                            Some((sat, p3))
                        }
                    }
                }
            }
        },
    }
}

/// An optional satellite block: absent, consuming nothing, where the
/// block grammar does not match.
pub open spec fn spec_sat_step(s: Seq<u8>, pos: int, g: GnssType) -> (Option<Satellite>, int) {
    match spec_sat(s, pos, g) {
        Some((sat, e)) => (Some(sat), e),
        None => (None, pos),
    }
}

/// The satellites-in-view payload grammar: the number of sentences in
/// the view group, this sentence's 1-based index and the total
/// satellites in view, each closed by a comma, then up to four
/// satellite blocks; once a block fails to match, it and all later
/// slots stay absent and the remaining bytes are ignored.
pub open spec fn spec_gsv(s: Seq<u8>, g: GnssType) -> Option<GsvData> {
    match spec_uint(s, 0, 0xFFFF) {
        None => None,
        Some((n1, q0)) => {
            if !comma_at(s, q0) {
                None
            } else {
                match spec_uint(s, q0 + 1, 0xFFFF) {
                    None => None,
                    Some((n2, q1)) => {
                        if !comma_at(s, q1) {
                            None
                        } else {
                            match spec_uint(s, q1 + 1, 0xFFFF) {
                                None => None,
                                Some((n3, q2)) => {
                                    if !comma_at(s, q2) {
                                        None
                                    } else {
                                        let (s0, t0) = spec_sat_step(s, q2 + 1, g);
                                        let (s1, t1) = spec_sat_step(s, t0, g);
                                        let (s2, t2) = spec_sat_step(s, t1, g);
                                        let (s3, _t3) = spec_sat_step(s, t2, g);
                                        Some(
                                            GsvData {
                                                gnss_type: g,
                                                number_of_sentences: n1 as u16,
                                                sentence_num: n2 as u16,
                                                _sats_in_view: n3 as u16,
                                                sats_info: [s0, s1, s2, s3],
                                            },
                                        )
                                    }
                                },
                            }
                        }
                    },
                }
            }
        },
    }
}

/// Decode one satellite block.
fn parse_sat(s: &[u8], pos: usize, g: GnssType) -> (r: Option<(Satellite, usize)>)
    requires
        pos <= s@.len(),
    ensures
        (match spec_sat(s@, pos as int, g) {
            Some(t) => r == Some((t.0, (t.1 as usize))) && pos <= t.1 <= s@.len(),
            None => r is None,
        }),
{
    let _len: usize = s.len();
    match parse_uint(s, pos, 0xFFFF_FFFF) {
        None => None,
        Some((prn, p0)) => {
            if !expect_comma(s, p0) {
                return None;
            }
            let (elev, p1) = opt_uint(s, p0 + 1, 0x7FFF_FFFF);
            if !expect_comma(s, p1) {
                return None;
            }
            let (azim, p2) = opt_uint(s, p1 + 1, 0x7FFF_FFFF);
            if !expect_comma(s, p2) {
                return None;
            }
            let (snr, p3) = opt_uint(s, p2 + 1, 0x7FFF_FFFF);
            let sat = Satellite {
                gnss_type: g,
                prn: prn as u32,
                elevation: (match elev {
                    Some(v) => Some(v as i32),
                    None => None,
                }),
                azimuth: (match azim {
                    Some(v) => Some(v as i32),
                    None => None,
                }),
                snr: (match snr {
                    Some(v) => Some(v as i32),
                    None => None,
                }),
            };
            if p3 < s.len() {
                if s[p3] == 0x2C {
                    Some((sat, p3 + 1))
                } else {
                    None
                }
            } else {
                Some((sat, p3))
            }
        },
    }
}

/// Decode an optional satellite block.
fn sat_step(s: &[u8], pos: usize, g: GnssType) -> (r: (Option<Satellite>, usize))
    requires
        pos <= s@.len(),
    ensures
        r.0 == spec_sat_step(s@, pos as int, g).0,
        r.1 as int == spec_sat_step(s@, pos as int, g).1,
        pos <= r.1 <= s@.len(),
{
    let _len: usize = s.len();
    match parse_sat(s, pos, g) {
        Some((sat, e)) => (Some(sat), e),
        None => (None, pos),
    }
}

/// Decode a satellites-in-view sentence: the talker id picks the
/// constellation tag (`GP`, `GA`, `GL` or `GN`; anything else fails),
/// which is applied to the sentence and to every satellite block.
pub fn parse_gsv(sentence: &NmeaSentence) -> (r: Result<GsvData, ParseError>)
    ensures
        sentence.message_id@ != seq![0x47u8, 0x53u8, 0x56u8] ==> r == Err::<GsvData, ParseError>(
            ParseError::WrongMessageId,
        ),
        (sentence.message_id@ == seq![0x47u8, 0x53u8, 0x56u8] && spec_gsv_talker(
            sentence.talker_id@,
        ) is None) ==> r == Err::<GsvData, ParseError>(ParseError::Grammar),
        (match spec_gsv_talker(sentence.talker_id@) {
            Some(g) => sentence.message_id@ == seq![0x47u8, 0x53u8, 0x56u8] ==> (match spec_gsv(
                sentence.data@,
                g,
            ) {
                Some(d) => r == Ok::<GsvData, ParseError>(d),
                None => r == Err::<GsvData, ParseError>(ParseError::Grammar),
            }),
            None => true,
        }),
{
    if !id_is(&sentence.message_id, 0x47, 0x53, 0x56) {
        return Err(ParseError::WrongMessageId);
    }
    let g = match gsv_talker(&sentence.talker_id) {
        Some(g) => g,
        None => {
            return Err(ParseError::Grammar);
        },
    };
    let s = sentence.data.as_slice();
    let _len: usize = s.len();
    match parse_uint(s, 0, 0xFFFF) {
        None => Err(ParseError::Grammar),
        Some((n1, q0)) => {
            if !expect_comma(s, q0) {
                return Err(ParseError::Grammar);
            }
            match parse_uint(s, q0 + 1, 0xFFFF) {
                None => Err(ParseError::Grammar),
                Some((n2, q1)) => {
                    if !expect_comma(s, q1) {
                        return Err(ParseError::Grammar);
                    }
                    match parse_uint(s, q1 + 1, 0xFFFF) {
                        None => Err(ParseError::Grammar),
                        Some((n3, q2)) => {
                            if !expect_comma(s, q2) {
                                return Err(ParseError::Grammar);
                            }
                            let (s0, t0) = sat_step(s, q2 + 1, g);
                            let (s1, t1) = sat_step(s, t0, g);
                            let (s2, t2) = sat_step(s, t1, g);
                            let (s3, _t3) = sat_step(s, t2, g);
                            Ok(GsvData {
                                gnss_type: g,
                                number_of_sentences: n1 as u16,
                                sentence_num: n2 as u16,
                                _sats_in_view: n3 as u16,
                                sats_info: [s0, s1, s2, s3],
                            })
                        },
                    }
                },
            }
        },
    }
}

/// The constellation a satellites-in-view talker id names: `GP` for
/// GPS, `GA` for Galileo, `GL` and `GN` for GLONASS; others unknown.
pub open spec fn spec_gsv_talker(t: Seq<u8>) -> Option<GnssType> {
    if t == seq![0x47u8, 0x50u8] {
        Some(GnssType::Gps)
    } else if t == seq![0x47u8, 0x41u8] {
        Some(GnssType::Galileo)
    } else if t == seq![0x47u8, 0x4Cu8] || t == seq![0x47u8, 0x4Eu8] {
        Some(GnssType::Glonass)
    } else {
        None
    }
}

/// Map a talker id to its constellation.
fn gsv_talker(t: &Vec<u8>) -> (r: Option<GnssType>)
    ensures
        r == spec_gsv_talker(t@),
{
    proof {
        if t@.len() == 2 {
            assert(t@ =~= seq![t@[0], t@[1]]);
        }
    }
    if t.len() != 2 || t[0] != 0x47 {
        return None;
    }
    if t[1] == 0x50 {
        Some(GnssType::Gps)
    } else if t[1] == 0x41 {
        Some(GnssType::Galileo)
    } else if t[1] == 0x4C || t[1] == 0x4E {
        Some(GnssType::Glonass)
    } else {
        None
    }
}

} // verus!
