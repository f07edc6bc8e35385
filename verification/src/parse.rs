//! The decoding entry point: frame, verify the checksum, route by
//! message id, and wrap the decoded record; and the laws the decode
//! obeys.

use vstd::prelude::*;
use crate::checksum::{lemma_checksum_flip, spec_checksum};
use crate::frame::{
    checksum_hex_ok, declared_checksum, frame_data, frame_mid, frame_ok, frame_talker, id_is,
    parse_nmea_sentence, star_pos, MAX_SENTENCE_LEN,
};
use crate::gga::{parse_gga, spec_gga};
use crate::gll::{parse_gll, spec_gll};
use crate::gsa::{parse_gsa, spec_gsa};
use crate::gsv::{parse_gsv, spec_gsv, spec_gsv_talker};
use crate::num::{lemma_find_byte, lemma_find_byte_is};
use crate::records::{ParseError, ParseResult};
use crate::rmc::{parse_rmc, spec_rmc};
use crate::vtg::{parse_vtg, spec_vtg};

verus! {

pub open spec fn mid_gga() -> Seq<u8> {
    seq![0x47u8, 0x47u8, 0x41u8]
}

pub open spec fn mid_rmc() -> Seq<u8> {
    seq![0x52u8, 0x4Du8, 0x43u8]
}

pub open spec fn mid_gsv() -> Seq<u8> {
    seq![0x47u8, 0x53u8, 0x56u8]
}

pub open spec fn mid_gsa() -> Seq<u8> {
    seq![0x47u8, 0x53u8, 0x41u8]
}

pub open spec fn mid_vtg() -> Seq<u8> {
    seq![0x56u8, 0x54u8, 0x47u8]
}

pub open spec fn mid_gll() -> Seq<u8> {
    seq![0x47u8, 0x4Cu8, 0x4Cu8]
}

/// One of the six message ids with a grammar of its own.
pub open spec fn supported_mid(m: Seq<u8>) -> bool {
    m == mid_gga() || m == mid_rmc() || m == mid_gsv() || m == mid_gsa() || m == mid_vtg() || m
        == mid_gll()
}

/// The framed span passes the envelope checks: ceiling, structure and
/// a hexadecimal checksum suffix.
pub open spec fn accepted_frame(s: Seq<u8>) -> bool {
    s.len() <= MAX_SENTENCE_LEN && frame_ok(s) && checksum_hex_ok(s)
}

/// The bytes the checksum is folded over:
/// talker id ++ message id ++ `','` ++ payload.
pub open spec fn checked_bytes(s: Seq<u8>) -> Seq<u8> {
    frame_talker(s) + frame_mid(s) + seq![0x2Cu8] + frame_data(s)
}

/// The XOR fold over the framed bytes equals the declared checksum.
pub open spec fn checksum_matches(s: Seq<u8>) -> bool {
    spec_checksum(checked_bytes(s)) == declared_checksum(s)
}

/// Everything `parse` promises of its outcome, in one predicate: a
/// record is returned exactly when the span frames, its checksum
/// matches and its grammar decodes, with the record pinned to the
/// grammar's reading; otherwise the one error naming the first failure.
pub open spec fn parse_post(s: Seq<u8>, r: Result<ParseResult, ParseError>) -> bool {
    let m = frame_mid(s);
    let t = frame_talker(s);
    let d = frame_data(s);
    match r {
        Ok(pr) => accepted_frame(s) && checksum_matches(s) && (match pr {
            ParseResult::GGA(g) => m == mid_gga() && spec_gga(d) == Some(g),
            ParseResult::RMC(g) => m == mid_rmc() && spec_rmc(d) == Some(g),
            ParseResult::GSV(g) => m == mid_gsv() && spec_gsv_talker(t) is Some && spec_gsv(
                d,
                spec_gsv_talker(t)->0,
            ) == Some(g),
            ParseResult::GSA(g) => m == mid_gsa() && (match spec_gsa(d) {
                Some(u) => g.mode1 == u.0 && g.mode2 == u.1 && g.fix_sats_prn@ == u.2 && g.pdop
                    == u.3 && g.hdop == u.4 && g.vdop == u.5,
                None => false,
            }),
            ParseResult::VTG(g) => m == mid_vtg() && spec_vtg(d) == Some(g),
            ParseResult::GLL(g) => m == mid_gll() && spec_gll(d) == Some(g),
            ParseResult::Unsupported(id) => id@ == m && !supported_mid(m),
        }),
        Err(e) => match e {
            ParseError::Oversized => s.len() > MAX_SENTENCE_LEN,
            ParseError::Malformed => s.len() <= MAX_SENTENCE_LEN && !frame_ok(s),
            ParseError::BadChecksumHex => s.len() <= MAX_SENTENCE_LEN && frame_ok(s)
                && !checksum_hex_ok(s),
            ParseError::ChecksumMismatch => accepted_frame(s) && !checksum_matches(s),
            ParseError::WrongMessageId => false,
            ParseError::Grammar => accepted_frame(s) && checksum_matches(s) && ((m == mid_gga()
                && spec_gga(d) is None) || (m == mid_rmc() && spec_rmc(d) is None) || (m
                == mid_gsv() && (spec_gsv_talker(t) is None || spec_gsv(
                d,
                spec_gsv_talker(t)->0,
            ) is None)) || (m == mid_gsa() && spec_gsa(d) is None) || (m == mid_vtg() && spec_vtg(
                d,
            ) is None) || (m == mid_gll() && spec_gll(d) is None)),
        },
    }
}

/// Decode one NMEA 0183 sentence: frame it, verify the checksum, route
/// by message id to the matching grammar, and wrap the record. A
/// well-formed sentence of an unsupported kind is not an error: its
/// raw message id is carried through.
pub fn parse(xs: &[u8]) -> (r: Result<ParseResult, ParseError>)
    ensures
        parse_post(xs@, r),
        xs@.len() > MAX_SENTENCE_LEN ==> r == Err::<ParseResult, ParseError>(
            ParseError::Oversized,
        ),
{
    let ns = match parse_nmea_sentence(xs) {
        Ok(ns) => ns,
        Err(e) => {
            return Err(e);
        },
    };
    let calc = ns.calc_checksum();
    proof {
        assert(ns.checked_span() =~= checked_bytes(xs@));
    }
    if ns.checksum != calc {
        return Err(ParseError::ChecksumMismatch);
    }
    if id_is(&ns.message_id, 0x47, 0x47, 0x41) {
        match parse_gga(&ns) {
            Ok(d) => Ok(ParseResult::GGA(d)),
            Err(e) => Err(e),
        }
    } else if id_is(&ns.message_id, 0x52, 0x4D, 0x43) {
        match parse_rmc(&ns) {
            Ok(d) => Ok(ParseResult::RMC(d)),
            Err(e) => Err(e),
        }
    } else if id_is(&ns.message_id, 0x47, 0x53, 0x56) {
        match parse_gsv(&ns) {
            Ok(d) => Ok(ParseResult::GSV(d)),
            Err(e) => Err(e),
        }
    } else if id_is(&ns.message_id, 0x47, 0x53, 0x41) {
        match parse_gsa(&ns) {
            Ok(d) => Ok(ParseResult::GSA(d)),
            Err(e) => Err(e),
        }
    } else if id_is(&ns.message_id, 0x56, 0x54, 0x47) {
        match parse_vtg(&ns) {
            Ok(d) => Ok(ParseResult::VTG(d)),
            Err(e) => Err(e),
        }
    } else if id_is(&ns.message_id, 0x47, 0x4C, 0x4C) {
        match parse_gll(&ns) {
            Ok(d) => Ok(ParseResult::GLL(d)),
            Err(e) => Err(e),
        }
    } else {
        Ok(ParseResult::Unsupported(ns.message_id))
    }
}

/// Records compared up to content: every field equal, list fields by
/// their elements.
pub open spec fn parse_result_equiv(a: ParseResult, b: ParseResult) -> bool {
    match (a, b) {
        (ParseResult::GGA(x), ParseResult::GGA(y)) => x == y,
        (ParseResult::RMC(x), ParseResult::RMC(y)) => x == y,
        (ParseResult::GSV(x), ParseResult::GSV(y)) => x == y,
        (ParseResult::GSA(x), ParseResult::GSA(y)) => x.mode1 == y.mode1 && x.mode2 == y.mode2
            && x.fix_sats_prn@ == y.fix_sats_prn@ && x.pdop == y.pdop && x.hdop == y.hdop && x.vdop
            == y.vdop,
        (ParseResult::VTG(x), ParseResult::VTG(y)) => x == y,
        (ParseResult::GLL(x), ParseResult::GLL(y)) => x == y,
        (ParseResult::Unsupported(x), ParseResult::Unsupported(y)) => x@ == y@,
        _ => false,
    }
}

/// Outcomes compared up to content.
pub open spec fn outcome_equiv(
    r1: Result<ParseResult, ParseError>,
    r2: Result<ParseResult, ParseError>,
) -> bool {
    match (r1, r2) {
        (Ok(a), Ok(b)) => parse_result_equiv(a, b),
        (Err(a), Err(b)) => a == b,
        _ => false,
    }
}

/// Decoding is a pure function of the input span: any two outcomes
/// that satisfy the decode contract for the same bytes agree in
/// content. Decoding the same span twice therefore yields equal
/// results, and no state can carry over between calls.
pub proof fn lemma_parse_deterministic(
    s: Seq<u8>,
    r1: Result<ParseResult, ParseError>,
    r2: Result<ParseResult, ParseError>,
)
    requires
        parse_post(s, r1),
        parse_post(s, r2),
    ensures
        outcome_equiv(r1, r2),
{
    assert(mid_gga()[0] == 0x47 && mid_rmc()[0] == 0x52 && mid_vtg()[0] == 0x56);
    assert(mid_gga()[1] == 0x47 && mid_gsv()[1] == 0x53 && mid_gsa()[1] == 0x53 && mid_gll()[1]
        == 0x4C);
    assert(mid_gsv()[2] == 0x56 && mid_gsa()[2] == 0x41);
}

/// Flipping any one payload byte of an accepted sentence, to anything
/// but the `'*'` terminator, leaves a span that still frames but whose
/// checksum no longer matches: the decode of the corrupted span fails
/// with a checksum mismatch.
pub proof fn lemma_payload_flip_causes_mismatch(s: Seq<u8>, i: int, b: u8)
    requires
        accepted_frame(s),
        checksum_matches(s),
        7 <= i < star_pos(s),
        b != s[i],
        b != 0x2A,
    ensures
        parse_post(s.update(i, b), Err(ParseError::ChecksumMismatch)),
{
    let s2 = s.update(i, b);
    let star = star_pos(s);
    lemma_find_byte(s, 7, 0x2A);
    assert forall|k: int| 7 <= k < star implies s2[k] != 0x2A by {
        if k != i {
            assert(s2[k] == s[k]);
        }
    }
    assert(s2[star] == 0x2A);
    lemma_find_byte_is(s2, 7, 0x2A, star);
    assert(star_pos(s2) == star);
    assert(frame_ok(s2));
    assert(checksum_hex_ok(s2));
    assert(declared_checksum(s2) == declared_checksum(s));
    assert(frame_talker(s2) =~= frame_talker(s));
    assert(frame_mid(s2) =~= frame_mid(s));
    let c1 = checked_bytes(s);
    let c2 = checked_bytes(s2);
    let j = i - 1;
    assert(frame_data(s)[i - 7] == s[i] && frame_data(s2)[i - 7] == b);
    assert(c1[j] == s[i] && c2[j] == b);
    assert forall|k: int| 0 <= k < c1.len() && k != j implies c1[k] == #[trigger] c2[k] by {
        if k < 2 {
            assert(c1[k] == frame_talker(s)[k]);
        } else if k < 5 {
            assert(c1[k] == frame_mid(s)[k - 2]);
        } else if k == 5 {
        } else {
            assert(c1[k] == frame_data(s)[k - 6] && c2[k] == frame_data(s2)[k - 6]);
            assert(frame_data(s)[k - 6] == s[k + 1] && frame_data(s2)[k - 6] == s2[k + 1]);
        }
    }
    lemma_checksum_flip(c1, c2, j);
    assert(!checksum_matches(s2));
}

} // verus!
