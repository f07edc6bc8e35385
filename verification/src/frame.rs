//! The sentence framer: strips the envelope
//! `'$' talker{2} message{3} ',' payload '*' hex hex`, enforces the
//! length ceiling and decodes the declared checksum.

use vstd::prelude::*;
use crate::checksum::{checksum, spec_checksum};
use crate::num::find_byte;
use crate::num::find_byte_exec;
use crate::records::ParseError;

verus! {

/// The longest input accepted: the protocol's 82-character ceiling plus
/// slack for known over-long emitters. Anything longer is the signature
/// of merged-sentence corruption and is rejected before tokenization.
pub const MAX_SENTENCE_LEN: usize = 102;

/// A framed sentence: opaque talker and message ids, the data payload,
/// and the declared checksum byte.
#[derive(Debug, Clone, PartialEq, Eq)]
pub struct NmeaSentence {
    pub talker_id: Vec<u8>,
    pub message_id: Vec<u8>,
    pub data: Vec<u8>,
    pub checksum: u8,
}

pub open spec fn is_hex_digit(b: u8) -> bool {
    (0x30 <= b <= 0x39) || (0x41 <= b <= 0x46) || (0x61 <= b <= 0x66)
}

pub open spec fn hex_val(b: u8) -> int {
    if 0x30 <= b <= 0x39 {
        b - 0x30
    } else if 0x41 <= b <= 0x46 {
        b - 0x41 + 10
    } else {
        b - 0x61 + 10
    }
}

/// Index of the first `'*'` at or after the payload start.
pub open spec fn star_pos(s: Seq<u8>) -> int {
    find_byte(s, 7, 0x2A)
}

/// The envelope shape: start marker, two-byte talker id, three-byte
/// message id, a comma, then somewhere a `'*'` with at least two bytes
/// after it.
pub open spec fn frame_ok(s: Seq<u8>) -> bool {
    &&& s.len() >= 7
    &&& s[0] == 0x24
    &&& s[6] == 0x2C
    &&& star_pos(s) + 3 <= s.len()
}

/// Both declared-checksum bytes are hexadecimal digits.
pub open spec fn checksum_hex_ok(s: Seq<u8>) -> bool {
    is_hex_digit(s[star_pos(s) + 1]) && is_hex_digit(s[star_pos(s) + 2])
}

/// The checksum value the sentence declares after its `'*'`.
pub open spec fn declared_checksum(s: Seq<u8>) -> int {
    hex_val(s[star_pos(s) + 1]) * 16 + hex_val(s[star_pos(s) + 2])
}

pub open spec fn frame_talker(s: Seq<u8>) -> Seq<u8> {
    s.subrange(1, 3)
}

pub open spec fn frame_mid(s: Seq<u8>) -> Seq<u8> {
    s.subrange(3, 6)
}

pub open spec fn frame_data(s: Seq<u8>) -> Seq<u8> {
    s.subrange(7, star_pos(s))
}

/// Which framing error an unframeable input is rejected with: oversized
/// input wins, then structural malformation, then a bad checksum suffix.
pub open spec fn frame_error(s: Seq<u8>) -> ParseError {
    if s.len() > MAX_SENTENCE_LEN {
        ParseError::Oversized
    } else if !frame_ok(s) {
        ParseError::Malformed
    } else {
        ParseError::BadChecksumHex
    }
}

/// Hex value of one checksum byte.
fn hex_digit(b: u8) -> (r: Option<u8>)
    ensures
        r is Some <==> is_hex_digit(b),
        r is Some ==> r->0 == hex_val(b),
{
    if 0x30 <= b && b <= 0x39 {
        Some(b - 0x30)
    } else if 0x41 <= b && b <= 0x46 {
        Some(b - 0x41 + 10)
    } else if 0x61 <= b && b <= 0x66 {
        Some(b - 0x61 + 10)
    } else {
        None
    }
}

/// Copy of the span `[from, to)`.
#[verifier::loop_isolation(false)]
pub fn subvec(s: &[u8], from: usize, to: usize) -> (v: Vec<u8>)
    requires
        from <= to <= s@.len(),
    ensures
        v@ == s@.subrange(from as int, to as int),
{
    let mut v: Vec<u8> = Vec::new();
    let mut i: usize = from;
    while i < to
        invariant
            from <= i <= to,
            v@ == s@.subrange(from as int, i as int),
        decreases to - i,
    {
        v.push(s[i]);
        i = i + 1;
        proof {
            assert(v@ =~= s@.subrange(from as int, i as int));
        }
    }
    v
}

/// Whether a three-byte id equals the given bytes.
pub(crate) fn id_is(v: &Vec<u8>, a: u8, b: u8, c: u8) -> (r: bool)
    ensures
        r == (v@ == seq![a, b, c]),
{
    let r = v.len() == 3 && v[0] == a && v[1] == b && v[2] == c;
    proof {
        if v@ == seq![a, b, c] {
            assert(v@.len() == 3);
            assert(v@[0] == a && v@[1] == b && v@[2] == c);
        }
        if v@.len() == 3 && v@[0] == a && v@[1] == b && v@[2] == c {
            assert(v@ =~= seq![a, b, c]);
        }
    }
    r
}

/// Frame one candidate sentence: enforce the length ceiling, strip the
/// envelope, and decode the two checksum digits. The payload is
/// everything between the first comma and the first `'*'`; bytes after
/// the checksum digits are ignored.
pub fn parse_nmea_sentence(sentence: &[u8]) -> (r: Result<NmeaSentence, ParseError>)
    ensures
        r is Ok <==> (sentence@.len() <= MAX_SENTENCE_LEN && frame_ok(sentence@)
            && checksum_hex_ok(sentence@)),
        (match r {
            Ok(ns) => {
                &&& ns.talker_id@ == frame_talker(sentence@)
                &&& ns.message_id@ == frame_mid(sentence@)
                &&& ns.data@ == frame_data(sentence@)
                &&& ns.checksum == declared_checksum(sentence@)
            },
            Err(e) => e == frame_error(sentence@),
        }),
{
    if sentence.len() > MAX_SENTENCE_LEN {
        return Err(ParseError::Oversized);
    }
    let len = sentence.len();
    if len < 7 || sentence[0] != 0x24 || sentence[6] != 0x2C {
        return Err(ParseError::Malformed);
    }
    let star = find_byte_exec(sentence, 7, 0x2A);
    if star + 3 > len {
        return Err(ParseError::Malformed);
    }
    let h1 = hex_digit(sentence[star + 1]);
    let h2 = hex_digit(sentence[star + 2]);
    match (h1, h2) {
        (Some(a), Some(b)) => Ok(NmeaSentence {
            talker_id: subvec(sentence, 1, 3),
            message_id: subvec(sentence, 3, 6),
            data: subvec(sentence, 7, star),
            checksum: a * 16 + b,
        }),
        _ => Err(ParseError::BadChecksumHex),
    }
}

impl NmeaSentence {
    /// The bytes the checksum is computed over:
    /// talker id ++ message id ++ `','` ++ payload.
    pub open spec fn checked_span(self) -> Seq<u8> {
        self.talker_id@ + self.message_id@ + seq![0x2Cu8] + self.data@
    }

    /// XOR checksum of the framed bytes, to hold against the declared one.
    pub fn calc_checksum(&self) -> (r: u8)
        ensures
            r == spec_checksum(self.checked_span()),
    {
        let mut buf: Vec<u8> = Vec::new();
        push_bytes(&mut buf, &self.talker_id);
        push_bytes(&mut buf, &self.message_id);
        buf.push(0x2C);
        push_bytes(&mut buf, &self.data);
        proof {
            assert(buf@ =~= self.checked_span());
        }
        checksum(buf.as_slice())
    }
}

/// Append a copy of `src` to `dst`.
#[verifier::loop_isolation(false)]
fn push_bytes(dst: &mut Vec<u8>, src: &Vec<u8>)
    ensures
        final(dst)@ == old(dst)@ + src@,
{
    let mut i: usize = 0;
    while i < src.len()
        invariant
            i <= src@.len(),
            dst@ == old(dst)@ + src@.take(i as int),
        decreases src@.len() - i,
    {
        dst.push(src[i]);
        i = i + 1;
        proof {
            assert(old(dst)@ + src@.take(i as int) =~= (old(dst)@ + src@.take(i - 1)).push(
                src@[i - 1],
            ));
        }
    }
    proof {
        assert(src@.take(src@.len() as int) =~= src@);
    }
}

} // verus!
