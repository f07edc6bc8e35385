//! The ground-velocity sentence: true and magnetic course and ground
//! speed, each value trailed by its unit letter.

use vstd::prelude::*;
use crate::fields::{
    comma_at, expect_comma, opt_char, opt_decimal, spec_opt_char, spec_opt_decimal,
};
use crate::frame::{id_is, NmeaSentence};
use crate::num::{pow10, pow10_u64, Decimal};
use crate::records::{Knots, ParseError, VtgData};

verus! {

/// A knots reading taken as is: `mant/10^scale` knots.
pub open spec fn spec_knots_of(d: Decimal) -> Knots {
    Knots { negative: d.negative, numer: d.mant as u128, denom: pow10(d.scale as int) as u128 }
}

/// A km/h reading converted to knots by dividing by 1.852, kept exact:
/// `(mant/10^scale) / 1.852  ==  mant * 250 / (10^scale * 463)`.
pub open spec fn spec_kph_to_knots(d: Decimal) -> Knots {
    Knots {
        negative: d.negative,
        numer: (d.mant * 250) as u128,
        denom: (pow10(d.scale as int) * 463) as u128,
    }
}

/// The reported speed prefers the knots field; a km/h field alone is
/// converted; neither present means absent.
pub open spec fn spec_vtg_speed(knots: Option<Decimal>, kph: Option<Decimal>) -> Option<Knots> {
    match knots {
        Some(d) => Some(spec_knots_of(d)),
        None => match kph {
            Some(d) => Some(spec_kph_to_knots(d)),
            None => None,
        },
    }
}

/// The ground-velocity payload grammar, field by field: optional true
/// course with `T`, optional magnetic course with `M` (decoded and
/// discarded), optional knots speed with `N`, then an optional km/h
/// reading taken directly after the `N` letter, a comma, and an
/// ignored `K`.
pub open spec fn spec_vtg(s: Seq<u8>) -> Option<VtgData> {
    let (course, p0) = spec_opt_decimal(s, 0);
    if !comma_at(s, p0) {
        None
    } else {
        let p1 = spec_opt_char(s, p0 + 1, 0x54);
        if !comma_at(s, p1) {
            None
        } else {
            let (magn, p2) = spec_opt_decimal(s, p1 + 1);
            if !comma_at(s, p2) {
                None
            } else {
                let p3 = spec_opt_char(s, p2 + 1, 0x4D);
                if !comma_at(s, p3) {
                    None
                } else {
                    let (knots, p4) = spec_opt_decimal(s, p3 + 1);
                    if !comma_at(s, p4) {
                        None
                    } else {
                        let p5 = spec_opt_char(s, p4 + 1, 0x4E);
                        let (kph, p6) = spec_opt_decimal(s, p5);
                        if !comma_at(s, p6) {
                            None
                        } else {
                            Some(
                                VtgData {
                                    true_course: course,
                                    speed_over_ground: spec_vtg_speed(knots, kph),
                                },
                            )
                        }
                    }
                }
            }
        }
    }
}

/// Decode a ground-velocity sentence, checking the message id first.
pub fn parse_vtg(sentence: &NmeaSentence) -> (r: Result<VtgData, ParseError>)
    ensures
        sentence.message_id@ != seq![0x56u8, 0x54u8, 0x47u8] ==> r == Err::<VtgData, ParseError>(
            ParseError::WrongMessageId,
        ),
        sentence.message_id@ == seq![0x56u8, 0x54u8, 0x47u8] ==> (match spec_vtg(
            sentence.data@,
        ) {
            Some(g) => r == Ok::<VtgData, ParseError>(g),
            None => r == Err::<VtgData, ParseError>(ParseError::Grammar),
        }),
{
    if !id_is(&sentence.message_id, 0x56, 0x54, 0x47) {
        return Err(ParseError::WrongMessageId);
    }
    let s = sentence.data.as_slice();
    let _len: usize = s.len();
    let (course, p0) = opt_decimal(s, 0);
    if !expect_comma(s, p0) {
        return Err(ParseError::Grammar);
    }
    let p1 = opt_char(s, p0 + 1, 0x54);
    if !expect_comma(s, p1) {
        return Err(ParseError::Grammar);
    }
    let (_magn, p2) = opt_decimal(s, p1 + 1);
    if !expect_comma(s, p2) {
        return Err(ParseError::Grammar);
    }
    let p3 = opt_char(s, p2 + 1, 0x4D);
    if !expect_comma(s, p3) {
        return Err(ParseError::Grammar);
    }
    let (knots, p4) = opt_decimal(s, p3 + 1);
    if !expect_comma(s, p4) {
        return Err(ParseError::Grammar);
    }
    let p5 = opt_char(s, p4 + 1, 0x4E);
    let (kph, p6) = opt_decimal(s, p5);
    if !expect_comma(s, p6) {
        return Err(ParseError::Grammar);
    }
    let speed: Option<Knots> = match knots {
        Some(d) => {
            let p = pow10_u64(d.scale as usize);
            Some(Knots { negative: d.negative, numer: d.mant as u128, denom: p as u128 })
        },
        None => match kph {
            Some(d) => {
                let p = pow10_u64(d.scale as usize);
                Some(
                    Knots {
                        negative: d.negative,
                        numer: (d.mant as u128) * 250,
                        denom: (p as u128) * 463,
                    },
                )
            },
            None => None,
        },
    };
    Ok(VtgData { true_course: course, speed_over_ground: speed })
}

} // verus!
