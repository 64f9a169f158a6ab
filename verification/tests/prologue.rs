use sem_reg::cloud_store::prologue::CloudStoreValuePrologue;
use sem_reg::data_conversion::byte_seq::{ByteSeq, ParseError};
use sem_reg::data_conversion::Strictness;

/// Bodyless value `...\default$windows.data.globalization.culture.culturesettings\...\Data`. A few
/// other registry values have exactly the same bytes.
const VALUE_WITH_BYTES_2A_2A: [u8; 14] = [
    0x43, 0x42, 0x01, 0x00, 0x0a, 0x02, 0x01, 0x00, 0x2a, 0x2a, 0x00, 0x00, 0x00, 0x00,
];
const VALUE_WITH_BYTES_2A_2A_RESULT: Result<CloudStoreValuePrologue, ParseError> =
    Ok(CloudStoreValuePrologue {
        epoch_secs: None,
        num_body_bytes: None,
    });

/// Bodyless value `...\default$windows.data.controlcenter.uistate\...\Data`.
const VALUE_WITH_BYTE_26: [u8; 13] = [
    0x43, 0x42, 0x01, 0x00, 0x0a, 0x00, 0x26, 0x88, 0xe2, 0xbe, 0xa9, 0x06, 0x00,
];
const VALUE_WITH_BYTE_26_RESULT: Result<CloudStoreValuePrologue, ParseError> =
    Ok(CloudStoreValuePrologue {
        epoch_secs: Some(1697624328),
        num_body_bytes: None,
    });

/// Artificial Night Light state value with 0 body bytes.
const NIGHT_LIGHT_STATE_VALUE: [u8; 22] = [
    0x43, 0x42, 0x01, 0x00, 0x0a, 0x02, 0x01, 0x00, 0x2a, 0x06, 0xa0, 0xb8, 0xdb, 0xaa, 0x06, 0x2a,
    0x2b, 0x0e, 0x00, 0x43, 0x42, 0x01,
];
const NIGHT_LIGHT_STATE_VALUE_RESULT: Result<CloudStoreValuePrologue, ParseError> =
    Ok(CloudStoreValuePrologue {
        epoch_secs: Some(1700191264),
        num_body_bytes: Some(0),
    });

fn parse(bytes: &[u8], strictness: Strictness) -> Result<CloudStoreValuePrologue, ParseError> {
    CloudStoreValuePrologue::from_byte_seq(&mut ByteSeq::from_bytes(bytes.to_vec()), strictness)
}

fn parse_value_with_bytes_2a_2a(
    strictness: Strictness,
) -> Result<CloudStoreValuePrologue, ParseError> {
    parse(&VALUE_WITH_BYTES_2A_2A, strictness)
}

fn parse_value_with_byte_26(strictness: Strictness) -> Result<CloudStoreValuePrologue, ParseError> {
    parse(&VALUE_WITH_BYTE_26, strictness)
}

fn parse_night_light_state_value(
    strictness: Strictness,
) -> Result<CloudStoreValuePrologue, ParseError> {
    parse(&NIGHT_LIGHT_STATE_VALUE, strictness)
}

#[test]
fn from_bytes_strict() {
    let result = parse_value_with_bytes_2a_2a(Strictness::Strict);
    assert_eq!(result, VALUE_WITH_BYTES_2A_2A_RESULT, "{result:?}");

    let result = parse_value_with_byte_26(Strictness::Strict);
    assert_eq!(result, VALUE_WITH_BYTE_26_RESULT, "{result:?}");

    let result = parse_night_light_state_value(Strictness::Strict);
    assert_eq!(result, NIGHT_LIGHT_STATE_VALUE_RESULT, "{result:?}");
}

#[test]
fn from_bytes_lenient() {
    let result = parse_value_with_bytes_2a_2a(Strictness::Lenient);
    assert_eq!(result, VALUE_WITH_BYTES_2A_2A_RESULT, "{result:?}");

    let result = parse_value_with_byte_26(Strictness::Lenient);
    assert_eq!(result, VALUE_WITH_BYTE_26_RESULT, "{result:?}");

    let result = parse_night_light_state_value(Strictness::Lenient);
    assert_eq!(result, NIGHT_LIGHT_STATE_VALUE_RESULT, "{result:?}");
}

#[test]
fn compare_strict_with_lenient_result() {
    let strict_result = parse_value_with_bytes_2a_2a(Strictness::Strict);
    let lenient_result = parse_value_with_bytes_2a_2a(Strictness::Lenient);
    assert_eq!(strict_result, lenient_result);

    let strict_result = parse_value_with_byte_26(Strictness::Strict);
    let lenient_result = parse_value_with_byte_26(Strictness::Lenient);
    assert_eq!(strict_result, lenient_result);

    let strict_result = parse_night_light_state_value(Strictness::Strict);
    let lenient_result = parse_night_light_state_value(Strictness::Lenient);
    assert_eq!(strict_result, lenient_result);
}

#[test]
fn prologue_to_byte_seq_gives_the_parsed_bytes_back() {
    for (bytes, prologue) in [
        (&VALUE_WITH_BYTES_2A_2A[..], VALUE_WITH_BYTES_2A_2A_RESULT.unwrap()),
        (&VALUE_WITH_BYTE_26[..], VALUE_WITH_BYTE_26_RESULT.unwrap()),
        (&NIGHT_LIGHT_STATE_VALUE[..], NIGHT_LIGHT_STATE_VALUE_RESULT.unwrap()),
    ] {
        assert_eq!(prologue.to_byte_seq(None).as_slice(), bytes);
        assert_eq!(prologue.to_byte_seq(Some(10)).as_slice(), bytes);
    }
}

#[test]
fn prologue_roundtrip_with_body() {
    let prologue = CloudStoreValuePrologue {
        epoch_secs: Some(1700000000),
        num_body_bytes: Some(3),
    };
    let mut byte_seq = prologue.to_byte_seq(None);
    byte_seq.push_const(&[0x00, 0x01, 0x02]);
    let bytes = byte_seq.as_slice().to_vec();
    for strictness in [Strictness::Strict, Strictness::Lenient] {
        let mut byte_seq = ByteSeq::from_bytes(bytes.clone());
        assert_eq!(
            CloudStoreValuePrologue::from_byte_seq(&mut byte_seq, strictness),
            Ok(prologue)
        );
        assert_eq!(byte_seq.num_bytes_left(), 3);
    }
}

#[test]
fn prologue_rejects_a_missing_signature() {
    let bytes = [0x43, 0x42, 0x02, 0x00, 0x0a, 0x00, 0x26, 0x01, 0x00];
    assert_eq!(parse(&bytes, Strictness::Strict), Err(ParseError::ExpectedConst(0)));
    assert_eq!(parse(&bytes, Strictness::Lenient), Err(ParseError::ExpectedConst(0)));
}

#[test]
fn prologue_strict_checks_the_announced_body_size() {
    // Announces one body byte, but has none.
    let mut bytes = NIGHT_LIGHT_STATE_VALUE.to_vec();
    bytes[18] = 0x01;
    assert_eq!(
        parse(&bytes, Strictness::Strict),
        Err(ParseError::InconsistentData)
    );
    assert_eq!(
        parse(&bytes, Strictness::Lenient),
        Ok(CloudStoreValuePrologue {
            epoch_secs: Some(1700191264),
            num_body_bytes: Some(1),
        })
    );
}

#[test]
fn prologue_lenient_overlooks_a_missing_zero() {
    // The zero byte after the signature is missing.
    let bytes = [0x43, 0x42, 0x01, 0x0a, 0x00, 0x26, 0x88, 0xe2, 0xbe, 0xa9, 0x06, 0x00];
    assert_eq!(parse(&bytes, Strictness::Strict), Err(ParseError::ExpectedZero(3)));
    assert_eq!(parse(&bytes, Strictness::Lenient), VALUE_WITH_BYTE_26_RESULT);
}

#[test]
fn prologue_strict_rejects_data_after_the_end() {
    let mut bytes = VALUE_WITH_BYTES_2A_2A.to_vec();
    bytes.push(0x01);
    assert_eq!(
        parse(&bytes, Strictness::Strict),
        Err(ParseError::DataAfterExpectedEnd)
    );
    assert_eq!(parse(&bytes, Strictness::Lenient), VALUE_WITH_BYTES_2A_2A_RESULT);
}

#[test]
fn prologue_strict_rejects_inconsistent_flags() {
    // The bytes `02 01` announce a body, but the timestamp is introduced by `26`.
    let bytes = [
        0x43, 0x42, 0x01, 0x00, 0x0a, 0x02, 0x01, 0x00, 0x26, 0x88, 0xe2, 0xbe, 0xa9, 0x06, 0x00,
    ];
    assert_eq!(parse(&bytes, Strictness::Strict), Err(ParseError::InconsistentData));
    assert_eq!(parse(&bytes, Strictness::Lenient), VALUE_WITH_BYTE_26_RESULT);
}
