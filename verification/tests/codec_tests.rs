use nmea_log_player::nmea_line_codec::{extract_nmea, DecodeError, NMEALineCodec};

#[test]
fn test_we_can_decode_nmea_line_in_a_trivial_case() {
    let mut codec = NMEALineCodec {};
    let mut bytes: Vec<u8> = Vec::new();
    bytes.extend_from_slice(b"$TOTO,jjig*45\n");
    let res = codec.decode(&mut bytes);
    match res {
        Ok(Some(line)) => {
            assert_eq!(line, "$TOTO,jjig*45\n");
            assert_eq!(bytes.len(), 0);
        }
        Ok(None) => {
            panic!("Not Parsed");
        }
        Err(_) => {
            panic!("Can't parse");
        }
    }
}

#[test]
fn test_we_can_decode_nmea_line_in_a_complex_case() {
    let mut codec = NMEALineCodec {};
    let mut bytes: Vec<u8> = Vec::new();
    bytes.extend_from_slice(b"$TOTO,jj");
    let mut res = codec.decode(&mut bytes);
    match res {
        Ok(Some(_)) => {
            panic!("Must not parse !");
        }
        Ok(None) => {
            assert_eq!(bytes.len(), 8);
        }
        Err(_) => {
            panic!("Can't parse");
        }
    }

    bytes.extend_from_slice(b"iid*45\n$TATA");
    res = codec.decode(&mut bytes);
    match res {
        Ok(Some(line)) => {
            assert_eq!(line, "$TOTO,jjiid*45\n");
            assert_eq!(bytes.len(), 5); // $TATA.
        }
        Ok(None) => {
            panic!("Not Parsed");
        }
        Err(_) => {
            panic!("Can't parse");
        }
    }
}

#[test]
fn decode_discards_noise_line_without_marker() {
    let mut codec = NMEALineCodec::default();
    let mut bytes: Vec<u8> = b"noise without marker\n$GPGGA".to_vec();
    let res = codec.decode(&mut bytes);
    assert!(matches!(res, Ok(None)));
    assert_eq!(bytes, b"$GPGGA".to_vec());
}

#[test]
fn decode_keeps_partial_buffer_untouched() {
    let mut codec = NMEALineCodec::default();
    let mut bytes: Vec<u8> = b"$GPGGA,074100".to_vec();
    let res = codec.decode(&mut bytes);
    assert!(matches!(res, Ok(None)));
    assert_eq!(bytes, b"$GPGGA,074100".to_vec());
}

#[test]
fn decode_skips_noise_before_marker_in_one_line() {
    let mut codec = NMEALineCodec::default();
    let mut bytes: Vec<u8> = b"xx$GPGGA,1*00\nrest".to_vec();
    let res = codec.decode(&mut bytes);
    match res {
        Ok(Some(line)) => {
            assert_eq!(line, "$GPGGA,1*00\n");
            assert_eq!(bytes, b"rest".to_vec());
        }
        _ => panic!("Not Parsed"),
    }
}

#[test]
fn decode_rejects_invalid_utf8_in_frame() {
    let mut codec = NMEALineCodec::default();
    let mut bytes: Vec<u8> = b"$GP\xff\n".to_vec();
    let res = codec.decode(&mut bytes);
    assert_eq!(res, Err(DecodeError::InvalidUtf8));
    assert_eq!(bytes.len(), 0);
}

#[test]
fn encode_appends_cr_lf() {
    let mut codec = NMEALineCodec::default();
    let mut out: Vec<u8> = Vec::new();
    codec.encode("$TOTO,jjig*45", &mut out);
    assert_eq!(out, b"$TOTO,jjig*45\r\n".to_vec());
}

#[test]
fn checksum_accepts_every_frame() {
    let mut codec = NMEALineCodec::default();
    assert!(codec.checksum(b"$TOTO,jjig*45"));
    assert!(codec.checksum(b"$TOTO,jjig*00"));
}

#[test]
fn extract_nmea_accepts_a_valid_fix_sentence() {
    let gga = "$GPGGA,092750.000,5321.6802,N,00630.3372,W,1,8,1.03,61.7,M,55.2,M,,*76";
    let res = extract_nmea(gga);
    assert!(res.is_ok());
}

#[test]
fn extract_nmea_rejects_garbage() {
    let res = extract_nmea("$TOTO,jjig*45");
    match res {
        Ok(_) => panic!("Must not parse !"),
        Err(e) => {
            assert!(e.message.contains("Can't parse line"));
        }
    }
}
