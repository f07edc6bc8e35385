//! The full decode pipeline: framing, checksum guard, dispatch, the
//! error cases, and the whole-pipeline laws on concrete sentences.

use nmea::{
    parse, parse_gga, parse_gll, parse_hms, parse_nmea_sentence, parse_vtg, Decimal, FixType,
    Knots, NmeaSentence, ParseError, ParseResult, PosSystemIndicator, Time,
};

#[test]
fn decode_gga_through_pipeline() {
    let r = parse(b"$GPGGA,033745.0,5650.82344,N,03548.9778,E,1,07,1.8,101.2,M,14.7,M,,*60")
        .unwrap();
    match r {
        ParseResult::GGA(g) => {
            assert_eq!(g.fix_type, Some(FixType::Gps));
            assert_eq!(g.fix_satellites, Some(7));
            assert_eq!(
                g.fix_time,
                Some(Time { hour: 3, minute: 37, second: 45, nanosecond: 0 })
            );
            assert_eq!(g.hdop, Some(Decimal { negative: false, mant: 18, scale: 1 }));
            assert_eq!(g.altitude, Some(Decimal { negative: false, mant: 1012, scale: 1 }));
            assert_eq!(g.geoid_height, Some(Decimal { negative: false, mant: 147, scale: 1 }));
        },
        _ => panic!("expected a GGA record"),
    }
}

#[test]
fn decode_unsupported_id_is_not_an_error() {
    let r = parse(b"$GPZDA,*64").unwrap();
    assert_eq!(r, ParseResult::Unsupported(b"ZDA".to_vec()));
}

#[test]
fn decode_is_idempotent() {
    let line: &[u8] = b"$GPGSA,A,3,,,,,,16,18,,22,24,,,3.6,2.1,2.2*3C";
    let first = parse(line);
    let second = parse(line);
    assert_eq!(first, second);
    assert!(first.is_ok());
}

#[test]
fn oversized_input_fails_regardless_of_content() {
    let mut long = b"$GPGGA,033745.0,5650.82344,N,03548.9778,E,1,07,1.8,101.2,M,14.7,M,,*57"
        .to_vec();
    while long.len() <= 102 {
        long.push(b'A');
    }
    assert_eq!(parse(&long), Err(ParseError::Oversized));
    let garbage = vec![0u8; 103];
    assert_eq!(parse(&garbage), Err(ParseError::Oversized));
}

#[test]
fn flipping_a_payload_byte_is_caught_by_the_checksum() {
    let line: &[u8] = b"$GPGSA,A,3,,,,,,16,18,,22,24,,,3.6,2.1,2.2*3C";
    assert!(parse(line).is_ok());
    for i in 7..line.len() - 3 {
        let mut corrupted = line.to_vec();
        corrupted[i] ^= 0x01;
        if corrupted[i] == b'*' || line[i] == b'*' {
            continue;
        }
        assert_eq!(parse(&corrupted), Err(ParseError::ChecksumMismatch));
    }
}

#[test]
fn structural_and_checksum_errors_are_distinct() {
    assert_eq!(parse(b"GPGGA,,,,,,0,,,,,,,,*66"), Err(ParseError::Malformed));
    assert_eq!(parse(b"$GPGGA"), Err(ParseError::Malformed));
    assert_eq!(parse(b"$GPGGA,,,,,,0,,,,,,,,"), Err(ParseError::Malformed));
    assert_eq!(parse(b"$GPGGA,*XY"), Err(ParseError::BadChecksumHex));
    assert_eq!(parse(b"$GPGGA,,,,,,0,,,,,,,,*00"), Err(ParseError::ChecksumMismatch));
    assert_eq!(parse(b"$GPGGA,,,,,,9,,,,,,,,*6F"), Err(ParseError::Grammar));
}

#[test]
fn type_decoder_rejects_foreign_message_id() {
    let s = parse_nmea_sentence(b"$GPRMC,,V,,,,,,,,,,N*53").unwrap();
    assert_eq!(parse_gga(&s), Err(ParseError::WrongMessageId));
}

#[test]
fn decode_gll_record() {
    let no_mode = parse_gll(&NmeaSentence {
        talker_id: b"GP".to_vec(),
        message_id: b"GLL".to_vec(),
        data: b"4916.45,N,12311.12,W,225444,A,".to_vec(),
        checksum: 0,
    })
    .unwrap();
    assert_eq!(
        no_mode.fix_time,
        Time { hour: 22, minute: 54, second: 44, nanosecond: 0 }
    );
    assert_eq!(no_mode.mode, None);
    assert!(!no_mode.latitude.negative);
    assert!(no_mode.longitude.negative);

    let with_mode = parse_gll(&NmeaSentence {
        talker_id: b"GP".to_vec(),
        message_id: b"GLL".to_vec(),
        data: b"4916.45,N,12311.12,W,225444,A,D,".to_vec(),
        checksum: 0,
    })
    .unwrap();
    assert_eq!(with_mode.mode, Some(PosSystemIndicator::Differential));
    assert_eq!(PosSystemIndicator::from('D'), PosSystemIndicator::Differential);
    assert_eq!(PosSystemIndicator::from('X'), PosSystemIndicator::DataNotValid);

    let invalid_flag = parse_gll(&NmeaSentence {
        talker_id: b"GP".to_vec(),
        message_id: b"GLL".to_vec(),
        data: b"4916.45,N,12311.12,W,225444,V,".to_vec(),
        checksum: 0,
    });
    assert_eq!(invalid_flag, Err(ParseError::Grammar));
}

#[test]
fn vtg_kmh_reading_converts_to_knots() {
    let data = parse_vtg(&NmeaSentence {
        talker_id: b"GP".to_vec(),
        message_id: b"VTG".to_vec(),
        data: b",T,,M,,N10.2,K".to_vec(),
        checksum: 0,
    })
    .unwrap();
    let speed = data.speed_over_ground.unwrap();
    assert_eq!(speed, Knots { negative: false, numer: 25500, denom: 4630 });
    assert_eq!(data.true_course, None);
    let knots = speed.numer as f64 / speed.denom as f64;
    assert!((knots - 10.2 / 1.852).abs() < 1e-9);
}

#[test]
fn seconds_fraction_rounds_half_up_to_nanoseconds() {
    let (time, _) = parse_hms(b"120000.12345678955,", 0).unwrap();
    assert_eq!(time.nanosecond, 123_456_790);
    let (time, _) = parse_hms(b"120000.12345678944,", 0).unwrap();
    assert_eq!(time.nanosecond, 123_456_789);
}

#[test]
fn bytes_after_the_checksum_are_ignored() {
    let r = parse(b"$GPGSA,A,3,,,,,,16,18,,22,24,,,3.6,2.1,2.2*3C\r\n").unwrap();
    assert!(matches!(r, ParseResult::GSA(_)));
}

#[test]
fn longitude_degrees_above_the_byte_range_fail() {
    assert!(nmea::do_parse_lat_lon(b"4916.45,N,30011.12,W", 0).is_none());
    assert!(nmea::do_parse_lat_lon(b"4916.45,N,25511.12,W", 0).is_some());
}

#[test]
fn gsv_slots_after_a_bad_block_stay_absent() {
    let data = nmea::parse_gsv(&NmeaSentence {
        talker_id: b"GP".to_vec(),
        message_id: b"GSV".to_vec(),
        data: b"2,1,08,xyz".to_vec(),
        checksum: 0,
    })
    .unwrap();
    assert_eq!(data.number_of_sentences, 2);
    assert_eq!(data.sats_info, [None, None, None, None]);
}

#[test]
fn rmc_rejects_an_unknown_status_letter() {
    let r = nmea::parse_rmc(&NmeaSentence {
        talker_id: b"GP".to_vec(),
        message_id: b"RMC".to_vec(),
        data: b",X,,,,,,,,,,".to_vec(),
        checksum: 0,
    });
    assert_eq!(r, Err(ParseError::Grammar));
}

#[test]
fn rmc_speed_keeps_its_sign() {
    let r = nmea::parse_rmc(&NmeaSentence {
        talker_id: b"GP".to_vec(),
        message_id: b"RMC".to_vec(),
        data: b",A,,,,,-5.5,,,".to_vec(),
        checksum: 0,
    })
    .unwrap();
    assert_eq!(
        r.speed_over_ground,
        Some(Decimal { negative: true, mant: 55, scale: 1 })
    );
}

#[test]
fn numbers_wider_than_the_fixed_point_word_fail() {
    assert!(parse_hms(b"120000.1234567890123456789,", 0).is_none());
    let (time, _) = parse_hms(b"120000.123456789012345678,", 0).unwrap();
    assert_eq!(time.nanosecond, 123_456_789);
}

#[test]
fn out_of_range_time_components_fail() {
    assert!(parse_hms(b"245959,", 0).is_none());
    assert!(parse_hms(b"126059,", 0).is_none());
    assert!(parse_hms(b"125967,", 0).is_none());
    assert!(parse_hms(b"1259,", 0).is_none());
}
