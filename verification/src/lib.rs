//! Decoder for NMEA 0183 navigation sentences.
//!
//! One already-delimited sentence (`'$'`, talker id, message id, the
//! comma-separated data payload, `'*'` and two checksum digits) goes in
//! as a byte span; out comes a tagged record for one of the six
//! supported sentence kinds, or a descriptive error. Framing, the XOR
//! checksum and every field grammar are stated as specification
//! functions over byte sequences, and the executable decoders are
//! proved to follow them exactly.

pub mod checksum;
pub mod fields;
pub mod frame;
pub mod gga;
pub mod gll;
pub mod gsa;
pub mod gsv;
pub mod num;
pub mod parse;
pub mod records;
pub mod rmc;
pub mod vtg;

pub use checksum::checksum;
pub use fields::{do_parse_lat_lon, parse_hms};
pub use frame::{parse_nmea_sentence, NmeaSentence};
pub use gga::parse_gga;
pub use gll::parse_gll;
pub use gsa::{gsa_prn_fields_parse, parse_gsa};
pub use gsv::parse_gsv;
pub use num::Decimal;
pub use parse::parse;
pub use records::{
    Angle, Date, FixType, GgaData, GllData, GnssType, GsaData, GsaMode1, GsaMode2, GsvData, Knots,
    ParseError, ParseResult, PosSystemIndicator, RmcData, RmcStatusOfFix, Satellite, Time, VtgData,
};
pub use rmc::parse_rmc;
pub use vtg::parse_vtg;
