use sem_reg::cloud_store::night_light::{
    ClockTime, ClockTimeFrame, RawNightLightSettings, ScheduleType,
};
use sem_reg::data_conversion::byte_seq::ParseError;
use sem_reg::data_conversion::time::EpochDuration;
use sem_reg::data_conversion::Strictness;

const SHORTEST: [u8; 39] = [
    0x43, 0x42, 0x01, 0x00, 0x0a, 0x02, 0x01, 0x00, 0x2a, 0x06, 0xfe, 0xcf, 0xee, 0xa9, 0x06, 0x2a,
    0x2b, 0x0e, 0x11, 0x43, 0x42, 0x01, 0x00, 0xca, 0x14, 0x00, 0xca, 0x1e, 0x00, 0xca, 0x32, 0x00,
    0xca, 0x3c, 0x00, 0x00, 0x00, 0x00, 0x00,
];

const LONGEST: [u8; 67] = [
    0x43, 0x42, 0x01, 0x00, 0x0a, 0x02, 0x01, 0x00, 0x2a, 0x06, 0xfe, 0xcf, 0xee, 0xa9, 0x06, 0x2a,
    0x2b, 0x0e, 0x2d, 0x43, 0x42, 0x01, 0x00, 0x02, 0x01, 0xc2, 0x0a, 0x00, 0xca, 0x14, 0x0e, 0x08,
    0x2e, 0x0f, 0x00, 0xca, 0x1e, 0x0e, 0x0e, 0x2e, 0x1e, 0x00, 0xcf, 0x28, 0xf8, 0x29, 0xca, 0x32,
    0x0e, 0x15, 0x2e, 0x03, 0x00, 0xca, 0x3c, 0x0e, 0x06, 0x2e, 0x14, 0x00, 0xc2, 0x46, 0x01, 0x00,
    0x00, 0x00, 0x00,
];

/// The timestamp of the values above: `fe cf ee a9 06` as a VLQ.
const EPOCH_SECS: u32 = 1698408446;

#[test]
fn settings_shortest_from_and_to_bytes() {
    let bytes = SHORTEST;

    for strictness in [Strictness::Strict, Strictness::Lenient] {
        match RawNightLightSettings::from_bytes(bytes.to_vec(), strictness) {
            Ok(settings) => {
                assert_eq!(*settings.schedule_active, false);
                assert_eq!(*settings.schedule_type, ScheduleType::SunsetToSunrise);
                assert_eq!(
                    *settings.scheduled_night,
                    ClockTimeFrame::midnight_to_midnight()
                );
                assert_eq!(*settings.night_color_temp, None);
                assert_eq!(settings.sunset_to_sunrise, None);
                assert_eq!(*settings.night_preview_active, false);

                assert_eq!(settings.to_bytes().unwrap().len(), bytes.len());
            }
            result => panic!("{result:?}"),
        }
    }
}

#[test]
fn settings_longest_from_and_to_bytes() {
    let bytes = LONGEST;

    for strictness in [Strictness::Strict, Strictness::Lenient] {
        match RawNightLightSettings::from_bytes(bytes.to_vec(), strictness) {
            Ok(settings) => {
                assert_eq!(*settings.schedule_active, true);
                assert_eq!(*settings.schedule_type, ScheduleType::Explicit);
                assert_eq!(
                    *settings.scheduled_night,
                    ClockTimeFrame {
                        start: ClockTime::from_h_min(8, 15).unwrap(),
                        end: ClockTime::from_h_min(14, 30).unwrap(),
                    }
                );
                assert_eq!(*settings.night_color_temp, Some(2684));
                assert_eq!(
                    settings.sunset_to_sunrise,
                    Some(ClockTimeFrame {
                        start: ClockTime::from_h_min(21, 3).unwrap(),
                        end: ClockTime::from_h_min(6, 20).unwrap(),
                    })
                );
                assert_eq!(*settings.night_preview_active, true);

                assert_eq!(settings.to_bytes().unwrap().len(), bytes.len());
            }
            result => panic!("{result:?}"),
        }
    }
}

#[test]
fn settings_to_bytes_at_the_stored_time_plus_two_gives_the_bytes_back() {
    // At a time before the stored timestamp, the written timestamp is the stored one plus two.
    let now = EpochDuration {
        secs: 1_000_000_000,
        subsec_nanos: 0,
    };
    for bytes in [&SHORTEST[..], &LONGEST[..]] {
        let mut settings = RawNightLightSettings::from_bytes(bytes.to_vec(), Strictness::Strict).unwrap();
        assert_eq!(settings.prologue_epoch_secs, EPOCH_SECS);
        settings.prologue_epoch_secs = EPOCH_SECS - 2;
        assert_eq!(settings.to_bytes_at(now), bytes.to_vec());
    }
}

#[test]
fn settings_to_bytes_checked_at() {
    let mut settings = RawNightLightSettings::from_bytes(SHORTEST.to_vec(), Strictness::Strict).unwrap();
    let now = EpochDuration {
        secs: 1_800_000_000,
        subsec_nanos: 0,
    };
    assert_eq!(settings.to_bytes_checked_at(now), Some(settings.to_bytes_at(now)));
    assert_eq!(
        settings.to_bytes_checked_at(EpochDuration {
            secs: u32::MAX as u64 + 1,
            subsec_nanos: 0,
        }),
        None
    );
    settings.prologue_epoch_secs = u32::MAX - 1;
    assert_eq!(settings.to_bytes_checked_at(now), None);
    assert_eq!(settings.to_bytes(), None);
}

#[test]
fn settings_roundtrip_with_changes() {
    let mut settings = RawNightLightSettings::from_bytes(SHORTEST.to_vec(), Strictness::Strict).unwrap();
    settings.schedule_active.set(true);
    settings.night_color_temp.set(Some(1200));
    settings.scheduled_night.set(ClockTimeFrame {
        start: ClockTime::from_h_min(23, 0).unwrap(),
        end: ClockTime::from_h_min(6, 45).unwrap(),
    });
    let now = EpochDuration {
        secs: 1_800_000_000,
        subsec_nanos: 5,
    };
    let bytes = settings.to_bytes_at(now);
    settings.prologue_epoch_secs = 1_800_000_000;
    for strictness in [Strictness::Strict, Strictness::Lenient] {
        let parsed = RawNightLightSettings::from_bytes(bytes.clone(), strictness).unwrap();
        assert_eq!(parsed.prologue_epoch_secs, 1_800_000_000);
        assert_eq!(parsed, settings);
        assert_eq!(*parsed.night_color_temp, Some(1200));
        assert!(!parsed.night_color_temp.changed());
    }
}

#[test]
fn settings_midnight_sunset_to_sunrise_reads_as_none() {
    let mut settings = RawNightLightSettings::from_bytes(LONGEST.to_vec(), Strictness::Strict).unwrap();
    settings.sunset_to_sunrise = Some(ClockTimeFrame::midnight_to_midnight());
    let now = EpochDuration {
        secs: 1_800_000_000,
        subsec_nanos: 0,
    };
    let parsed = RawNightLightSettings::from_bytes(settings.to_bytes_at(now), Strictness::Strict).unwrap();
    assert_eq!(parsed.sunset_to_sunrise, None);
}

#[test]
fn settings_lenient_fallback() {
    let now = EpochDuration {
        secs: 1_700_000_000,
        subsec_nanos: 0,
    };
    let settings = RawNightLightSettings::lenient_fallback(now);
    assert_eq!(settings.prologue_epoch_secs, 1_700_000_000);
    assert_eq!(*settings.schedule_active, false);
    assert_eq!(*settings.schedule_type, ScheduleType::SunsetToSunrise);
    assert_eq!(
        *settings.scheduled_night,
        ClockTimeFrame {
            start: ClockTime::from_h_min(21, 0).unwrap(),
            end: ClockTime::from_h_min(7, 0).unwrap(),
        }
    );
    assert_eq!(*settings.night_color_temp, Some(4000));
    assert_eq!(settings.sunset_to_sunrise, None);
    assert_eq!(*settings.night_preview_active, false);
}

#[test]
fn settings_rejects_a_temperature_out_of_range() {
    // `cf 28` followed by the zigzag VLQ of 70000 (140000 as a VLQ: e0 c5 08).
    let mut bytes = LONGEST.to_vec();
    bytes.splice(44..46, [0xe0, 0xc5, 0x08]);
    bytes[18] = 0x2e;
    assert_eq!(
        RawNightLightSettings::from_bytes(bytes.clone(), Strictness::Strict),
        Err(ParseError::ValueNotInRange)
    );
    assert_eq!(
        RawNightLightSettings::from_bytes(bytes, Strictness::Lenient),
        Err(ParseError::ValueNotInRange)
    );
}

#[test]
fn settings_rejects_an_invalid_clock_time() {
    // The hour of the scheduled night's start becomes 24.
    let mut bytes = LONGEST.to_vec();
    bytes[31] = 24;
    assert_eq!(
        RawNightLightSettings::from_bytes(bytes, Strictness::Strict),
        Err(ParseError::ValueNotInRange)
    );
}

#[test]
fn settings_lenient_overlooks_a_missing_preview_flag() {
    // `c2 46` without the `01`; the body size shrinks by one.
    let mut bytes = LONGEST.to_vec();
    bytes.remove(62);
    bytes[18] = 0x2c;
    assert_eq!(
        RawNightLightSettings::from_bytes(bytes.clone(), Strictness::Strict),
        Err(ParseError::ExpectedConst(62))
    );
    let settings = RawNightLightSettings::from_bytes(bytes, Strictness::Lenient).unwrap();
    assert_eq!(*settings.night_preview_active, false);
}

#[test]
fn settings_strict_needs_a_prologue_with_body() {
    // A prologue with a timestamp but without the body size.
    let mut bytes = vec![0x43, 0x42, 0x01, 0x00, 0x0a, 0x00, 0x26, 0xfe, 0xcf, 0xee, 0xa9, 0x06, 0x00];
    bytes.extend_from_slice(&SHORTEST[22..]);
    // Strictly, such a prologue ends the value.
    assert_eq!(
        RawNightLightSettings::from_bytes(bytes.clone(), Strictness::Strict),
        Err(ParseError::DataAfterExpectedEnd)
    );
    let settings = RawNightLightSettings::from_bytes(bytes, Strictness::Lenient).unwrap();
    assert_eq!(settings.prologue_epoch_secs, EPOCH_SECS);
}

#[test]
fn settings_rejects_a_bodyless_value() {
    let bytes = vec![
        0x43, 0x42, 0x01, 0x00, 0x0a, 0x02, 0x01, 0x00, 0x2a, 0x2a, 0x00, 0x00, 0x00, 0x00,
    ];
    assert_eq!(
        RawNightLightSettings::from_bytes(bytes, Strictness::Lenient),
        Err(ParseError::InconsistentData)
    );
}
