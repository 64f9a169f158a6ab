use sem_reg::data_conversion::byte_seq::{ByteSeq, ParseError};
use sem_reg::data_conversion::format::write_table;
use sem_reg::data_conversion::time::{
    epoch_duration_in_range, epoch_duration_or_zero, epoch_duration_to_epoch_secs,
    epoch_duration_to_filetime, now_as_epoch_duration, system_time_to_epoch_duration,
    EpochDuration,
};
use sem_reg::data_conversion::{ResultOrElseIf, Strictness, TrackedValue};

#[test]
fn tracked_value_set_reset_changed() {
    let mut value = TrackedValue::new(5u16);
    assert_eq!(*value, 5);
    assert!(!value.changed());
    value.set(7);
    assert_eq!(*value, 7);
    assert!(value.changed());
    value.set(5);
    assert_eq!(*value, 5);
    assert!(!value.changed());
    value.set(9);
    value.reset();
    assert_eq!(*value, 5);
    assert!(!value.changed());
}

#[test]
fn tracked_value_reset_undoes_every_set() {
    let mut value = TrackedValue::new(5u16);
    value.set(7);
    value.set(9);
    value.reset();
    assert!(value == TrackedValue::new(5u16));
    assert_eq!(*value, 5);
    assert!(!value.changed());
}

#[test]
fn tracked_values_compare_by_current_value() {
    let mut a = TrackedValue::new(true);
    let b = TrackedValue::new(false);
    assert!(a != b);
    a.set(false);
    assert!(a == b);
}

#[test]
fn strictness_from_lenient_bool() {
    assert_eq!(Strictness::from_lenient_bool(true), Strictness::Lenient);
    assert_eq!(Strictness::from_lenient_bool(false), Strictness::Strict);
    assert!(Strictness::Strict.is_strict());
    assert!(!Strictness::Strict.is_lenient());
    assert!(Strictness::Lenient.is_lenient());
}

#[test]
fn or_else_if_falls_back_only_if_flagged() {
    let err: Result<u8, ParseError> = Err(ParseError::ValueNotInRange);
    assert_eq!(err.or_else_if(true, |_| Ok(1)), Ok(1));
    let err: Result<u8, ParseError> = Err(ParseError::ValueNotInRange);
    assert_eq!(err.or_else_if(false, |_| Ok(1)), Err(ParseError::ValueNotInRange));
    let ok: Result<u8, ParseError> = Ok(3);
    assert_eq!(ok.or_else_if(true, |_| Ok(1)), Ok(3));
}

#[test]
fn write_table_aligns_the_values() {
    let mut out = String::new();
    write_table(
        &mut out,
        &[
            Some(("Active", "yes".to_string())),
            None,
            Some(("Kelvin", "4000".to_string())),
            Some(("Preview Active", "no".to_string())),
        ],
    );
    assert_eq!(
        out,
        "Active .......... yes\n\nKelvin .......... 4000\nPreview Active .. no"
    );
}

#[test]
fn write_table_of_nothing_is_empty() {
    let mut out = String::from("x");
    write_table(&mut out, &[]);
    assert_eq!(out, "x");
}

#[test]
fn vlq_encoding() {
    let mut byte_seq = ByteSeq::new();
    byte_seq.push_vlq_64(300);
    assert_eq!(byte_seq.as_slice(), &[0xac, 0x02]);
    byte_seq.push_vlq_64(u64::MAX);
    assert_eq!(byte_seq.len(), 12);
    assert_eq!(byte_seq.read_vlq_64(), Ok(300));
    assert_eq!(byte_seq.read_vlq_64(), Ok(u64::MAX));
    assert!(byte_seq.exhausted());
    assert_eq!(byte_seq.read_vlq_64(), Err(ParseError::ExpectedVlq64(12)));
}

#[test]
fn vlq_of_zero_is_one_byte() {
    let mut byte_seq = ByteSeq::from_bytes(vec![0x43]);
    byte_seq.push_vlq_64(0);
    assert_eq!(byte_seq.as_slice(), &[0x43, 0x00]);
    assert_eq!(byte_seq.read_index(), 0);
    byte_seq.push_vlq_64(127);
    byte_seq.push_vlq_64(128);
    assert_eq!(byte_seq.as_slice(), &[0x43, 0x00, 0x7f, 0x80, 0x01]);
}

#[test]
fn vlq_too_long_is_rejected() {
    let mut byte_seq = ByteSeq::from_bytes(vec![0xff; 10]);
    assert_eq!(byte_seq.read_vlq_64(), Err(ParseError::ExpectedVlq64(0)));
    assert_eq!(byte_seq.read_index(), 0);
}

#[test]
fn zigzag_vlq_encoding() {
    let mut byte_seq = ByteSeq::new();
    for value in [0i64, -1, 1, -64, 64, i64::MIN, i64::MAX] {
        byte_seq.push_zigzag_vlq_64(value);
    }
    assert_eq!(&byte_seq.as_slice()[..5], &[0x00, 0x01, 0x02, 0x7f, 0x80]);
    for value in [0i64, -1, 1, -64, 64, i64::MIN, i64::MAX] {
        assert_eq!(byte_seq.read_zigzag_vlq_64(), Ok(value));
    }
    assert_eq!(byte_seq.assert_exhausted(), Ok(()));
}

#[test]
fn byte_seq_consts_ints_and_seeking() {
    let mut byte_seq = ByteSeq::with_capacity(8);
    byte_seq.push_const(&[0xca, 0x14]);
    byte_seq.push_zero();
    byte_seq.push_int(0x2e);
    assert_eq!(byte_seq.assert_const(&[0xca, 0x15]), Err(ParseError::ExpectedConst(0)));
    assert_eq!(byte_seq.assert_const(&[0xca, 0x14]), Ok(()));
    assert_eq!(byte_seq.assert_zero(), Ok(()));
    assert_eq!(byte_seq.num_bytes_left(), 1);
    assert_eq!(byte_seq.read_int(), Ok(0x2e));
    assert_eq!(byte_seq.read_int(), Err(ParseError::ExpectedInt(4)));
    assert_eq!(byte_seq.assert_zero(), Err(ParseError::ExpectedZero(4)));
    assert!(!byte_seq.seek(5));
    assert!(byte_seq.seek(1));
    assert_eq!(byte_seq.read_index(), 1);
    assert!(byte_seq.seek_by(2));
    assert!(!byte_seq.seek_by(2));
    assert_eq!(byte_seq.read_index(), 3);
    assert_eq!(byte_seq.assert_exhausted(), Err(ParseError::DataAfterExpectedEnd));

    let mut other = ByteSeq::new();
    other.push_const(&[0x01]);
    byte_seq.extend(&other);
    assert_eq!(byte_seq.into_bytes(), vec![0xca, 0x14, 0x00, 0x2e, 0x01]);
}

#[test]
fn epoch_duration_conversions() {
    let duration = EpochDuration {
        secs: 1_700_000_000,
        subsec_nanos: 999_999_999,
    };
    assert_eq!(epoch_duration_to_epoch_secs(duration), 1_700_000_000);
    assert_eq!(epoch_duration_to_filetime(duration), 133444736009999999);
    let zero = EpochDuration {
        secs: 0,
        subsec_nanos: 0,
    };
    assert_eq!(epoch_duration_to_filetime(zero), 116444736000000000);
}

#[test]
fn now_is_after_2023() {
    let now = now_as_epoch_duration();
    assert!(now.secs > 1_700_000_000);
    assert!(now.subsec_nanos < 1_000_000_000);
}

#[test]
fn byte_seq_into_vec() {
    let mut byte_seq = ByteSeq::new();
    byte_seq.push_const(&[0x01, 0x02]);
    assert_eq!(Vec::from(byte_seq), vec![0x01, 0x02]);
}

#[test]
fn epoch_duration_before_1970_is_zero() {
    let duration = EpochDuration {
        secs: 5,
        subsec_nanos: 6,
    };
    assert_eq!(epoch_duration_or_zero(Some(duration)), duration);
    assert_eq!(
        epoch_duration_or_zero(None),
        EpochDuration {
            secs: 0,
            subsec_nanos: 0
        }
    );
}

#[test]
fn system_time_to_epoch_duration_counts_from_1970() {
    let time = std::time::UNIX_EPOCH + std::time::Duration::new(5, 6);
    assert_eq!(
        system_time_to_epoch_duration(time),
        EpochDuration {
            secs: 5,
            subsec_nanos: 6
        }
    );
    let before = std::time::UNIX_EPOCH - std::time::Duration::from_secs(1);
    assert_eq!(
        system_time_to_epoch_duration(before),
        EpochDuration {
            secs: 0,
            subsec_nanos: 0
        }
    );
}

#[test]
fn epoch_duration_range() {
    assert!(epoch_duration_in_range(EpochDuration {
        secs: u32::MAX as u64,
        subsec_nanos: 999_999_999,
    }));
    assert!(!epoch_duration_in_range(EpochDuration {
        secs: u32::MAX as u64 + 1,
        subsec_nanos: 0,
    }));
}
