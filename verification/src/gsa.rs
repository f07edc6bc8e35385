//! The active-satellites sentence: selection and fix modes, a
//! variable-length list of optional PRN fields, and the three dilution
//! values, present all together or not at all.

use vstd::prelude::*;
use crate::fields::{comma_at, expect_comma};
use crate::num::{lemma_decimal_wf, parse_decimal, parse_uint, spec_decimal, spec_uint, Decimal};
use crate::frame::{id_is, NmeaSentence};
use crate::records::{GsaData, GsaMode1, GsaMode2, ParseError};

verus! {

/// The PRN fields: repeatedly, an optional unsigned integer closed by a
/// comma; the run ends at the first element not closed by a comma,
/// which stays unconsumed. Yields the optional values in order and the
/// index where the run ends.
pub open spec fn spec_gsa_prns(s: Seq<u8>, pos: int) -> (Seq<Option<u32>>, int)
    decreases s.len() - pos when 0 <= pos <= s.len()
{
    match spec_uint(s, pos, 0xFFFF_FFFF) {
        Some((v, p)) => if pos < p && p < s.len() && s[p] == 0x2C {
            let (rest, e) = spec_gsa_prns(s, p + 1);
            (seq![Some(v as u32)] + rest, e)
        } else {
            (Seq::empty(), pos)
        },
        None => if pos < s.len() && s[pos] == 0x2C {
            let (rest, e) = spec_gsa_prns(s, pos + 1);
            (seq![None] + rest, e)
        } else {
            (Seq::empty(), pos)
        },
    }
}

/// The reported PRNs in order, with the absent slots dropped.
pub open spec fn spec_compact(q: Seq<Option<u32>>) -> Seq<u32>
    decreases q.len()
{
    if q.len() == 0 {
        Seq::empty()
    } else {
        spec_compact(q.drop_last()) + (match q.last() {
            Some(v) => seq![v],
            None => Seq::<u32>::empty(),
        })
    }
}

/// The all-comma escape for a fix-less sentence: at least one byte
/// remains and every remaining byte is a comma.
pub open spec fn spec_all_commas(s: Seq<u8>, pos: int) -> bool {
    pos < s.len() && (forall|k: int| pos <= k < s.len() ==> #[trigger] s[k] == 0x2C)
}

#[verifier::loop_isolation(false)]
fn all_commas(s: &[u8], pos: usize) -> (r: bool)
    requires
        pos <= s@.len(),
    ensures
        r == spec_all_commas(s@, pos as int),
{
    if pos >= s.len() {
        return false;
    }
    let mut i: usize = pos;
    while i < s.len()
        invariant
            pos <= i <= s@.len(),
            forall|k: int| pos <= k < i ==> #[trigger] s@[k] == 0x2C,
        decreases s@.len() - i,
    {
        if s[i] != 0x2C {
            return false;
        }
        i = i + 1;
    }
    true
}

/// Decode the PRN fields; public so that the run can be inspected on
/// its own, uncompacted.
pub fn gsa_prn_fields_parse(s: &[u8], pos: usize) -> (r: (Vec<Option<u32>>, usize))
    requires
        pos <= s@.len(),
    ensures
        r.0@ == spec_gsa_prns(s@, pos as int).0,
        r.1 as int == spec_gsa_prns(s@, pos as int).1,
        pos <= r.1 <= s@.len(),
{
    let mut acc: Vec<Option<u32>> = Vec::new();
    let mut cur: usize = pos;
    loop
        invariant_except_break
            pos <= cur <= s@.len(),
            spec_gsa_prns(s@, pos as int).0 =~= acc@ + spec_gsa_prns(s@, cur as int).0,
            spec_gsa_prns(s@, pos as int).1 == spec_gsa_prns(s@, cur as int).1,
        ensures
            pos <= cur <= s@.len(),
            acc@ == spec_gsa_prns(s@, pos as int).0,
            cur as int == spec_gsa_prns(s@, pos as int).1,
        decreases s@.len() - cur,
    {
        let _len: usize = s.len();
        match parse_uint(s, cur, 0xFFFF_FFFF) {
            Some((v, p)) => {
                if expect_comma(s, p) {
                    acc.push(Some(v as u32));
                    proof {
                        assert(acc@ =~= (acc@.drop_last()).push(Some(v as u32)));
                        assert(acc@.drop_last() + (seq![Some(v as u32)] + spec_gsa_prns(
                            s@,
                            p as int + 1,
                        ).0) =~= acc@ + spec_gsa_prns(s@, p as int + 1).0);
                    }
                    cur = p + 1;
                } else {
                    break;
                }
            },
            None => {
                if expect_comma(s, cur) {
                    acc.push(None);
                    proof {
                        assert(acc@.drop_last() + (seq![None::<u32>] + spec_gsa_prns(
                            s@,
                            cur as int + 1,
                        ).0) =~= acc@ + spec_gsa_prns(s@, cur as int + 1).0);
                    }
                    cur = cur + 1;
                } else {
                    break;
                }
            },
        }
    }
    proof {
        assert(acc@ + Seq::<Option<u32>>::empty() =~= acc@);
    }
    (acc, cur)
}

/// Drop the absent slots from the PRN run.
#[verifier::loop_isolation(false)]
fn compact_prns(q: &Vec<Option<u32>>) -> (r: Vec<u32>)
    ensures
        r@ == spec_compact(q@),
{
    let mut out: Vec<u32> = Vec::new();
    let mut i: usize = 0;
    while i < q.len()
        invariant
            i <= q@.len(),
            out@ == spec_compact(q@.take(i as int)),
        decreases q@.len() - i,
    {
        proof {
            assert(q@.take(i + 1).drop_last() =~= q@.take(i as int));
            assert(q@.take(i + 1).last() == q@[i as int]);
        }
        match q[i] {
            Some(v) => {
                out.push(v);
                proof {
                    assert(out@ =~= spec_compact(q@.take(i as int)) + seq![q@[i as int]->0]);
                }
            },
            None => {
                proof {
                    assert(out@ =~= spec_compact(q@.take(i as int)) + Seq::<u32>::empty());
                }
            },
        }
        i = i + 1;
    }
    proof {
        assert(q@.take(q@.len() as int) =~= q@);
    }
    out
}

/// The active-satellites payload grammar: a selection mode `M` or `A`,
/// a comma, a fix mode digit `1`-`3`, a comma, then either the
/// all-comma empty tail (no PRNs, no dilution values) or the PRN run
/// followed by exactly three decimal dilution values separated by
/// commas; bytes after the third are ignored.
pub open spec fn spec_gsa(s: Seq<u8>) -> Option<
    (GsaMode1, GsaMode2, Seq<u32>, Option<Decimal>, Option<Decimal>, Option<Decimal>),
> {
    if !(s.len() >= 4 && (s[0] == 0x4D || s[0] == 0x41) && s[1] == 0x2C && (0x31 <= s[2] <= 0x33)
        && s[3] == 0x2C) {
        None
    } else {
        let m1 = if s[0] == 0x4D {
            GsaMode1::Manual
        } else {
            GsaMode1::Automatic
        };
        let m2 = if s[2] == 0x31 {
            GsaMode2::NoFix
        } else if s[2] == 0x32 {
            GsaMode2::Fix2D
        } else {
            GsaMode2::Fix3D
        };
        if spec_all_commas(s, 4) {
            Some((m1, m2, Seq::empty(), None, None, None))
        } else {
            let (prns, p) = spec_gsa_prns(s, 4);
            match spec_decimal(s, p) {
                None => None,
                Some((pd, e1)) => {
                    if !comma_at(s, e1) {
                        None
                    } else {
                        match spec_decimal(s, e1 + 1) {
                            None => None,
                            Some((hd, e2)) => {
                                if !comma_at(s, e2) {
                                    None
                                } else {
                                    match spec_decimal(s, e2 + 1) {
                                        None => None,
                                        Some((vd, _e3)) => Some(
                                            (
                                                m1,
                                                m2,
                                                spec_compact(prns),
                                                Some(pd),
                                                Some(hd),
                                                Some(vd),
                                            ),
                                        ),
                                    }
                                }
                            },
                        }
                    }
                },
            }
        }
    }
}

/// Decode an active-satellites sentence, checking the message id first.
pub fn parse_gsa(sentence: &NmeaSentence) -> (r: Result<GsaData, ParseError>)
    ensures
        sentence.message_id@ != seq![0x47u8, 0x53u8, 0x41u8] ==> r == Err::<GsaData, ParseError>(
            ParseError::WrongMessageId,
        ),
        sentence.message_id@ == seq![0x47u8, 0x53u8, 0x41u8] ==> (match spec_gsa(
            sentence.data@,
        ) {
            Some(t) => (match r {
                Ok(g) => g.mode1 == t.0 && g.mode2 == t.1 && g.fix_sats_prn@ == t.2 && g.pdop
                    == t.3 && g.hdop == t.4 && g.vdop == t.5,
                Err(_) => false,
            }),
            None => r == Err::<GsaData, ParseError>(ParseError::Grammar),
        }),
{
    if !id_is(&sentence.message_id, 0x47, 0x53, 0x41) {
        return Err(ParseError::WrongMessageId);
    }
    let s = sentence.data.as_slice();
    let _len: usize = s.len();
    if !(s.len() >= 4 && (s[0] == 0x4D || s[0] == 0x41) && s[1] == 0x2C && 0x31 <= s[2] && s[2]
        <= 0x33 && s[3] == 0x2C) {
        return Err(ParseError::Grammar);
    }
    let m1 = if s[0] == 0x4D {
        GsaMode1::Manual
    } else {
        GsaMode1::Automatic
    };
    let m2 = if s[2] == 0x31 {
        GsaMode2::NoFix
    } else if s[2] == 0x32 {
        GsaMode2::Fix2D
    } else {
        GsaMode2::Fix3D
    };
    if all_commas(s, 4) {
        return Ok(GsaData {
            mode1: m1,
            mode2: m2,
            fix_sats_prn: Vec::new(),
            pdop: None,
            hdop: None,
            vdop: None,
        });
    }
    let (prns, p) = gsa_prn_fields_parse(s, 4);
    proof {
        lemma_decimal_wf(s@, p as int);
    }
    match parse_decimal(s, p) {
        None => Err(ParseError::Grammar),
        Some((pd, e1)) => {
            if !expect_comma(s, e1) {
                return Err(ParseError::Grammar);
            }
            match parse_decimal(s, e1 + 1) {
                None => Err(ParseError::Grammar),
                Some((hd, e2)) => {
                    if !expect_comma(s, e2) {
                        return Err(ParseError::Grammar);
                    }
                    match parse_decimal(s, e2 + 1) {
                        None => Err(ParseError::Grammar),
                        Some((vd, _e3)) => Ok(GsaData {
                            mode1: m1,
                            mode2: m2,
                            fix_sats_prn: compact_prns(&prns),
                            pdop: Some(pd),
                            hdop: Some(hd),
                            vdop: Some(vd),
                        }),
                    }
                },
            }
        },
    }
}

} // verus!
