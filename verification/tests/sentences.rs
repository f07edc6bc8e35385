//! Decoding the six sentence kinds on concrete sentences.

use nmea::{
    parse_gga, parse_gsa, parse_gsv, parse_hms, parse_nmea_sentence, parse_rmc, parse_vtg,
    do_parse_lat_lon, gsa_prn_fields_parse, Angle, Date, Decimal, FixType, GgaData, GnssType,
    GsaData, GsaMode1, GsaMode2, Knots, NmeaSentence, RmcData, RmcStatusOfFix, Satellite, Time,
    VtgData,
};

fn dec_f64(d: &Decimal) -> f64 {
    let v = d.mant as f64 / 10f64.powi(d.scale as i32);
    if d.negative { -v } else { v }
}

fn angle_f64(a: &Angle) -> f64 {
    let v = a.degrees as f64 + dec_f64(&a.minutes) / 60.0;
    if a.negative { -v } else { v }
}

fn knots_f64(k: &Knots) -> f64 {
    let v = k.numer as f64 / k.denom as f64;
    if k.negative { -v } else { v }
}

fn approx(a: f64, b: f64) -> bool {
    (a - b).abs() < 1e-9
}

#[test]
fn test_do_parse_lat_lon() {
    let (lat_lon, _) = do_parse_lat_lon(b"4807.038,N,01131.324,E", 0).unwrap();
    assert!(approx(angle_f64(&lat_lon.0), 48. + 7.038 / 60.));
    assert!(approx(angle_f64(&lat_lon.1), 11. + 31.324 / 60.));
}

#[test]
fn test_parse_gga_full() {
    let data = parse_gga(&NmeaSentence {
        talker_id: b"GP".to_vec(),
        message_id: b"GGA".to_vec(),
        data: b"033745.0,5650.82344,N,03548.9778,E,1,07,1.8,101.2,M,14.7,M,,".to_vec(),
        checksum: 0x57,
    })
    .unwrap();
    assert_eq!(
        data.fix_time.unwrap(),
        Time { hour: 3, minute: 37, second: 45, nanosecond: 0 }
    );
    assert_eq!(data.fix_type.unwrap(), FixType::Gps);
    assert!(approx(angle_f64(&data.latitude.unwrap()), 56. + 50.82344 / 60.));
    assert!(approx(angle_f64(&data.longitude.unwrap()), 35. + 48.9778 / 60.));
    assert_eq!(data.fix_satellites.unwrap(), 7);
    assert!(approx(dec_f64(&data.hdop.unwrap()), 1.8));
    assert!(approx(dec_f64(&data.altitude.unwrap()), 101.2));
    assert!(approx(dec_f64(&data.geoid_height.unwrap()), 14.7));

    let s = parse_nmea_sentence(b"$GPGGA,,,,,,0,,,,,,,,*66").unwrap();
    assert_eq!(s.checksum, s.calc_checksum());
    let data = parse_gga(&s).unwrap();
    assert_eq!(
        GgaData {
            fix_time: None,
            fix_type: Some(FixType::Invalid),
            latitude: None,
            longitude: None,
            fix_satellites: None,
            hdop: None,
            altitude: None,
            geoid_height: None,
        },
        data
    );
}

#[test]
fn test_parse_gga_with_optional_fields() {
    let sentence =
        parse_nmea_sentence(b"$GPGGA,133605.0,5521.75946,N,03731.93769,E,0,00,,,M,,M,,*4F")
            .unwrap();
    assert_eq!(sentence.checksum, sentence.calc_checksum());
    assert_eq!(sentence.checksum, 0x4f);
    let data = parse_gga(&sentence).unwrap();
    assert_eq!(data.fix_type.unwrap(), FixType::Invalid);
}

#[test]
fn test_parse_rmc() {
    let s = parse_nmea_sentence(
        b"$GPRMC,225446.33,A,4916.45,N,12311.12,W,000.5,054.7,191194,020.3,E,A*2B",
    )
    .unwrap();
    assert_eq!(s.checksum, s.calc_checksum());
    assert_eq!(s.checksum, 0x2b);
    let rmc_data = parse_rmc(&s).unwrap();
    assert_eq!(
        rmc_data.fix_time.unwrap(),
        Time { hour: 22, minute: 54, second: 46, nanosecond: 330_000_000 }
    );
    assert_eq!(rmc_data.fix_date.unwrap(), Date { day: 19, month: 11, year: 94 });
    assert!(approx(angle_f64(&rmc_data.lat.unwrap()), 49.0 + 16.45 / 60.));
    assert!(approx(angle_f64(&rmc_data.lon.unwrap()), -(123.0 + 11.12 / 60.)));
    assert!(approx(dec_f64(&rmc_data.speed_over_ground.unwrap()), 0.5));
    assert!(approx(dec_f64(&rmc_data.true_course.unwrap()), 54.7));

    let s = parse_nmea_sentence(b"$GPRMC,,V,,,,,,,,,,N*53").unwrap();
    let rmc = parse_rmc(&s).unwrap();
    assert_eq!(
        RmcData {
            fix_time: None,
            fix_date: None,
            status_of_fix: Some(RmcStatusOfFix::Invalid),
            lat: None,
            lon: None,
            speed_over_ground: None,
            true_course: None,
        },
        rmc
    );
}

#[test]
fn test_parse_gsv_full() {
    let data = parse_gsv(&NmeaSentence {
        talker_id: b"GP".to_vec(),
        message_id: b"GSV".to_vec(),
        data: b"2,1,08,01,,083,46,02,17,308,,12,07,344,39,14,22,228,".to_vec(),
        checksum: 0,
    })
    .unwrap();
    assert_eq!(data.gnss_type, GnssType::Gps);
    assert_eq!(data.number_of_sentences, 2);
    assert_eq!(data.sentence_num, 1);
    assert_eq!(data._sats_in_view, 8);
    assert_eq!(
        data.sats_info[0].clone().unwrap(),
        Satellite {
            gnss_type: data.gnss_type.clone(),
            prn: 1,
            elevation: None,
            azimuth: Some(83),
            snr: Some(46),
        }
    );
    assert_eq!(
        data.sats_info[1].clone().unwrap(),
        Satellite {
            gnss_type: data.gnss_type.clone(),
            prn: 2,
            elevation: Some(17),
            azimuth: Some(308),
            snr: None,
        }
    );
    assert_eq!(
        data.sats_info[2].clone().unwrap(),
        Satellite {
            gnss_type: data.gnss_type.clone(),
            prn: 12,
            elevation: Some(7),
            azimuth: Some(344),
            snr: Some(39),
        }
    );
    assert_eq!(
        data.sats_info[3].clone().unwrap(),
        Satellite {
            gnss_type: data.gnss_type.clone(),
            prn: 14,
            elevation: Some(22),
            azimuth: Some(228),
            snr: None,
        }
    );

    let data = parse_gsv(&NmeaSentence {
        talker_id: b"GL".to_vec(),
        message_id: b"GSV".to_vec(),
        data: b"3,3,10,72,40,075,43,87,00,000,".to_vec(),
        checksum: 0,
    })
    .unwrap();
    assert_eq!(data.gnss_type, GnssType::Glonass);
    assert_eq!(data.number_of_sentences, 3);
    assert_eq!(data.sentence_num, 3);
    assert_eq!(data._sats_in_view, 10);
}

#[test]
fn test_parse_hms() {
    let (time, _) = parse_hms(b"125619,", 0).unwrap();
    assert_eq!(time.hour, 12);
    assert_eq!(time.minute, 56);
    assert_eq!(time.second, 19);
    assert_eq!(time.nanosecond, 0);
    let (time, _) = parse_hms(b"125619.5,", 0).unwrap();
    assert_eq!(time.hour, 12);
    assert_eq!(time.minute, 56);
    assert_eq!(time.second, 19);
    assert_eq!(time.nanosecond, 5_00_000_000);
}

#[test]
fn test_gsa_prn_fields_parse() {
    let (ret, _) = gsa_prn_fields_parse(b"5,", 0);
    assert_eq!(vec![Some(5)], ret);
    let (ret, _) = gsa_prn_fields_parse(b",", 0);
    assert_eq!(vec![None], ret);

    let (ret, _) = gsa_prn_fields_parse(b",,5,6,", 0);
    assert_eq!(vec![None, None, Some(5), Some(6)], ret);
}

#[test]
fn smoke_test_parse_gsa() {
    let s = parse_nmea_sentence(b"$GPGSA,A,3,,,,,,16,18,,22,24,,,3.6,2.1,2.2*3C").unwrap();
    let gsa = parse_gsa(&s).unwrap();
    assert_eq!(
        GsaData {
            mode1: GsaMode1::Automatic,
            mode2: GsaMode2::Fix3D,
            fix_sats_prn: vec![16, 18, 22, 24],
            pdop: Some(Decimal { negative: false, mant: 36, scale: 1 }),
            hdop: Some(Decimal { negative: false, mant: 21, scale: 1 }),
            vdop: Some(Decimal { negative: false, mant: 22, scale: 1 }),
        },
        gsa
    );
    let gsa_examples = [
        "$GPGSA,A,3,19,28,14,18,27,22,31,39,,,,,1.7,1.0,1.3*35",
        "$GPGSA,A,3,23,31,22,16,03,07,,,,,,,1.8,1.1,1.4*3E",
        "$BDGSA,A,3,214,,,,,,,,,,,,1.8,1.1,1.4*18",
        "$GNGSA,A,3,31,26,21,,,,,,,,,,3.77,2.55,2.77*1A",
        "$GNGSA,A,3,75,86,87,,,,,,,,,,3.77,2.55,2.77*1C",
        "$GPGSA,A,1,,,,*32",
    ];
    for line in &gsa_examples {
        println!("we parse line '{}'", line);
        let s = parse_nmea_sentence(line.as_bytes()).unwrap();
        parse_gsa(&s).unwrap();
    }
}

#[test]
fn test_parse_vtg() {
    let run_parse_vtg = |line: &str| -> Result<VtgData, nmea::ParseError> {
        let s = parse_nmea_sentence(line.as_bytes()).expect("VTG sentence initial parse failed");
        assert_eq!(s.checksum, s.calc_checksum());
        parse_vtg(&s)
    };
    assert_eq!(
        VtgData { true_course: None, speed_over_ground: None },
        run_parse_vtg("$GPVTG,,T,,M,,N,,K,N*2C").unwrap()
    );
    let with_course = run_parse_vtg("$GPVTG,360.0,T,348.7,M,000.0,N,000.0,K*43").unwrap();
    assert_eq!(
        VtgData {
            true_course: Some(Decimal { negative: false, mant: 3600, scale: 1 }),
            speed_over_ground: Some(Knots { negative: false, numer: 0, denom: 10 }),
        },
        with_course
    );
    assert!(approx(dec_f64(&with_course.true_course.unwrap()), 360.0));
    assert!(approx(knots_f64(&with_course.speed_over_ground.unwrap()), 0.0));
    let moving = run_parse_vtg("$GPVTG,054.7,T,034.4,M,005.5,N,010.2,K*48").unwrap();
    assert_eq!(
        VtgData {
            true_course: Some(Decimal { negative: false, mant: 547, scale: 1 }),
            speed_over_ground: Some(Knots { negative: false, numer: 55, denom: 10 }),
        },
        moving
    );
    assert!(approx(dec_f64(&moving.true_course.unwrap()), 54.7));
    assert!(approx(knots_f64(&moving.speed_over_ground.unwrap()), 5.5));
}
