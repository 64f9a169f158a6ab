use sem_reg::cloud_store::night_light::{
    location_services_allow,
    ClockTime, ClockTimeFrame, CompetingProps, DataError, Error, NightLight, NightLightBytes,
    RawNightLightSettings, RawNightLightState, RegValueId, ScheduleType, TransitionCause,
};
use sem_reg::data_conversion::byte_seq::ParseError;
use sem_reg::data_conversion::time::EpochDuration;
use sem_reg::data_conversion::Strictness;

const STATE: [u8; 38] = [
    0x43, 0x42, 0x01, 0x00, 0x0a, 0x02, 0x01, 0x00, 0x2a, 0x06, 0xae, 0x81, 0xd2, 0xa9, 0x06, 0x2a,
    0x2b, 0x0e, 0x10, 0x43, 0x42, 0x01, 0x00, 0xc6, 0x14, 0xe6, 0xfd, 0x92, 0xd6, 0xa9, 0x91, 0x81,
    0xed, 0x01, 0x00, 0x00, 0x00, 0x00,
];

const SETTINGS: [u8; 39] = [
    0x43, 0x42, 0x01, 0x00, 0x0a, 0x02, 0x01, 0x00, 0x2a, 0x06, 0xfe, 0xcf, 0xee, 0xa9, 0x06, 0x2a,
    0x2b, 0x0e, 0x11, 0x43, 0x42, 0x01, 0x00, 0xca, 0x14, 0x00, 0xca, 0x1e, 0x00, 0xca, 0x32, 0x00,
    0xca, 0x3c, 0x00, 0x00, 0x00, 0x00, 0x00,
];

const NOW: EpochDuration = EpochDuration {
    secs: 1_800_000_000,
    subsec_nanos: 0,
};

fn bytes() -> NightLightBytes {
    NightLightBytes {
        state: STATE.to_vec(),
        settings: SETTINGS.to_vec(),
    }
}

fn night_light() -> NightLight {
    NightLight::from_bytes(bytes(), Some(true)).unwrap()
}

#[test]
fn night_light_from_bytes_and_getters() {
    let night_light = night_light();
    assert!(!night_light.active());
    assert_eq!(night_light.transition_cause(), TransitionCause::Schedule);
    assert_eq!(night_light.state_modified_filetime(), 133424132309434086);
    assert_eq!(night_light.latest_possible_settings_modified_epoch_secs(), 1698408446);
    assert!(!night_light.schedule_active());
    assert_eq!(night_light.schedule_type(), ScheduleType::SunsetToSunrise);
    assert_eq!(night_light.sunset_to_sunrise(), None);
    assert_eq!(night_light.scheduled_night(), ClockTimeFrame::midnight_to_midnight());
    assert_eq!(night_light.night_color_temp(), None);
    assert_eq!(night_light.night_color_temp_in_range(), None);
    assert!(!night_light.night_preview_active());
    assert!(!night_light.uses_12_hour_clock());
    assert_eq!(night_light.strictness(), Strictness::Strict);
    assert_eq!(night_light.sunset_to_sunrise_possible_when_loaded(), Some(true));
}

#[test]
fn night_light_from_bytes_reports_the_parse_error() {
    let mut broken = bytes();
    broken.settings[0] = 0x44;
    assert!(matches!(
        NightLight::from_bytes(broken, None),
        Err(ParseError::ExpectedConst(0))
    ));
    let mut broken = bytes();
    broken.state.push(0x00);
    assert!(matches!(
        NightLight::from_bytes(broken.clone(), None),
        Err(ParseError::InconsistentData)
    ));
    let lenient = NightLight::from_bytes_lenient(broken, None).unwrap();
    assert_eq!(lenient.strictness(), Strictness::Lenient);
}

#[test]
fn night_light_effective_schedule_type() {
    let mut night_light = NightLight::from_bytes(bytes(), Some(true)).unwrap();
    assert_eq!(
        night_light.effective_schedule_type(),
        Some(ScheduleType::SunsetToSunrise)
    );
    let off = NightLight::from_bytes(bytes(), Some(false)).unwrap();
    assert_eq!(off.effective_schedule_type(), Some(ScheduleType::Explicit));
    let unknown = NightLight::from_bytes(bytes(), None).unwrap();
    assert_eq!(unknown.effective_schedule_type(), None);
    night_light.set_schedule_type(ScheduleType::Explicit);
    assert_eq!(night_light.effective_schedule_type(), Some(ScheduleType::Explicit));
}

#[test]
fn night_light_color_temp_in_range_is_clamped() {
    let mut night_light = night_light();
    night_light.set_night_color_temp(Some(100));
    assert_eq!(night_light.night_color_temp(), Some(100));
    assert_eq!(night_light.night_color_temp_in_range(), Some(NightLight::MIN_NIGHT_COLOR_TEMP));
    night_light.set_night_color_temp(Some(9000));
    assert_eq!(night_light.night_color_temp_in_range(), Some(6500));
    night_light.set_night_color_temp(Some(3000));
    assert_eq!(night_light.night_color_temp_in_range(), Some(3000));
    assert_eq!(NightLight::WARMEST_NIGHT_COLOR_TEMP, 1200);
    assert_eq!(NightLight::COLDEST_NIGHT_COLOR_TEMP, 6500);
}

#[test]
fn night_light_without_changes_writes_nothing() {
    let write = night_light().reg_write_at(0, NOW).unwrap();
    assert!(write.settings.is_none());
    assert!(write.state.is_none());

    // Setting a value back to the loaded one is no change.
    let mut night_light = night_light();
    night_light.set_schedule_active(true);
    night_light.set_schedule_active(false);
    let write = night_light.reg_write_at(0, NOW).unwrap();
    assert!(write.settings.is_none());
    assert!(write.state.is_none());
}

#[test]
fn night_light_expires() {
    let mut night_light = night_light();
    night_light.set_active(true);
    assert!(matches!(
        night_light.reg_write_at(1_000_000_001, NOW),
        Err(DataError::Expired)
    ));
    let mut night_light = self::night_light();
    night_light.set_active(true);
    assert!(night_light.reg_write_at(1_000_000_000, NOW).is_ok());
}

#[test]
fn night_light_writes_a_changed_state_as_manual() {
    let mut night_light = night_light();
    night_light.set_active(true);
    let write = night_light.reg_write_at(5, NOW).unwrap();
    assert!(write.settings.is_none());
    let state = RawNightLightState::from_bytes(write.state.unwrap(), Strictness::Strict).unwrap();
    assert!(*state.active);
    assert_eq!(state.transition_cause, TransitionCause::Manual);
    assert_eq!(state.prologue_epoch_secs, 1_800_000_000);
}

#[test]
fn night_light_writes_changed_settings() {
    let mut night_light = night_light();
    let night = ClockTimeFrame {
        start: ClockTime::from_h_min(22, 30).unwrap(),
        end: ClockTime::from_h_min(6, 0).unwrap(),
    };
    night_light.set_scheduled_night(night);
    night_light.set_schedule_active(true);
    night_light.set_night_color_temp(Some(3300));
    let write = night_light.reg_write_at(5, NOW).unwrap();
    assert!(write.state.is_none());
    let settings =
        RawNightLightSettings::from_bytes(write.settings.unwrap(), Strictness::Strict).unwrap();
    assert_eq!(*settings.scheduled_night, night);
    assert!(*settings.schedule_active);
    assert_eq!(*settings.night_color_temp, Some(3300));
}

#[test]
fn night_light_refuses_state_with_state_changing_settings() {
    let mut night_light = night_light();
    night_light.set_active(true);
    night_light.set_schedule_active(true);
    assert!(matches!(
        night_light.reg_write_at(0, NOW),
        Err(DataError::Irreconcilable(CompetingProps::StateVsStateChangingSettings))
    ));
}

#[test]
fn night_light_refuses_changes_with_night_preview() {
    let mut night_light = night_light();
    night_light.set_active(true);
    night_light.set_night_preview_active(true);
    assert!(matches!(
        night_light.reg_write_at(0, NOW),
        Err(DataError::Irreconcilable(CompetingProps::StateVsNightPreview))
    ));

    let mut night_light = self::night_light();
    night_light.set_schedule_type(ScheduleType::Explicit);
    night_light.set_night_preview_active(true);
    assert!(matches!(
        night_light.reg_write_at(0, NOW),
        Err(DataError::Irreconcilable(
            CompetingProps::StateChangingSettingsVsNightPreview
        ))
    ));

    // Preview mode already active, as loaded.
    let mut preview = self::night_light();
    preview.set_night_preview_active(true);
    let write = preview.reg_write_at(0, NOW).unwrap();
    let settings = write.settings.unwrap();
    let mut night_light = NightLight::from_bytes(
        NightLightBytes {
            state: STATE.to_vec(),
            settings,
        },
        Some(true),
    )
    .unwrap();
    assert!(night_light.night_preview_active());
    night_light.set_active(true);
    assert!(matches!(
        night_light.reg_write_at(0, NOW),
        Err(DataError::NightPreviewInProgress)
    ));
}

#[test]
fn night_light_color_temp_may_change_during_preview() {
    let mut night_light = night_light();
    night_light.set_night_preview_active(true);
    night_light.set_night_color_temp(Some(2000));
    let write = night_light.reg_write_at(0, NOW).unwrap();
    assert!(write.state.is_none());
    let settings =
        RawNightLightSettings::from_bytes(write.settings.unwrap(), Strictness::Strict).unwrap();
    assert!(*settings.night_preview_active);
    assert_eq!(*settings.night_color_temp, Some(2000));
}

#[test]
fn night_light_init_steps() {
    let mut night_light = night_light();
    night_light.set_night_color_temp(Some(3000));
    let previous_temp = night_light.start_init();
    assert_eq!(previous_temp, Some(Some(Some(3000))));
    assert!(night_light.night_preview_active());
    assert_eq!(night_light.night_color_temp(), Some(NightLight::COLDEST_NIGHT_COLOR_TEMP));

    let mut reloaded = self::night_light();
    reloaded.set_night_preview_active(true);
    reloaded.finish_init(Some(Some(3000)));
    assert!(!reloaded.night_preview_active());
    assert_eq!(reloaded.night_color_temp(), Some(3000));

    // With Night Light active, the temperature stays.
    let mut active = self::night_light();
    active.set_active(true);
    active.set_night_color_temp(Some(2500));
    assert_eq!(active.start_init(), Some(None));
    assert_eq!(active.night_color_temp(), Some(2500));

    // With preview mode active, nothing is to be done.
    let mut previewing = self::night_light();
    previewing.set_night_preview_active(true);
    assert_eq!(previewing.start_init(), None);
}

#[test]
fn night_light_init_restores_missing_temp() {
    let mut night_light = night_light();
    assert_eq!(night_light.night_color_temp(), None);
    let previous_temp = night_light.start_init();
    assert_eq!(previous_temp, Some(Some(None)));
    assert_eq!(night_light.night_color_temp(), Some(NightLight::COLDEST_NIGHT_COLOR_TEMP));

    let mut reloaded = self::night_light();
    reloaded.set_night_preview_active(true);
    reloaded.set_night_color_temp(Some(NightLight::COLDEST_NIGHT_COLOR_TEMP));
    reloaded.finish_init(previous_temp.unwrap());
    assert!(!reloaded.night_preview_active());
    assert_eq!(reloaded.night_color_temp(), None);
}

#[test]
fn location_services_allow_scans_in_order() {
    let allow = || Some("Allow".to_string());
    assert_eq!(location_services_allow(&[allow(), allow(), allow()]), Some(true));
    assert_eq!(location_services_allow(&[]), Some(true));
    assert_eq!(
        location_services_allow(&[allow(), Some("Deny".to_string()), None]),
        Some(false)
    );
    assert_eq!(location_services_allow(&[None, Some("Deny".to_string())]), None);
    assert_eq!(location_services_allow(&[allow(), Some("allow".to_string())]), Some(false));
}

#[test]
fn night_light_lenient_fallback() {
    let night_light = NightLight::lenient_fallback(NOW, None);
    assert!(!night_light.active());
    assert_eq!(night_light.transition_cause(), TransitionCause::Manual);
    assert_eq!(night_light.night_color_temp(), Some(4000));
    assert_eq!(night_light.strictness(), Strictness::Lenient);
    assert_eq!(
        night_light.scheduled_night(),
        ClockTimeFrame {
            start: ClockTime::from_h_min(21, 0).unwrap(),
            end: ClockTime::from_h_min(7, 0).unwrap(),
        }
    );
    assert_eq!(night_light.latest_possible_settings_modified_epoch_secs(), 1_800_000_000);
}

#[test]
fn night_light_bytes_of_value() {
    let bytes = bytes();
    assert_eq!(bytes.bytes_of_value(RegValueId::State), &STATE[..]);
    assert_eq!(bytes.bytes_of_value(RegValueId::Settings), &SETTINGS[..]);
}

#[test]
fn night_light_error_conversions() {
    assert!(matches!(
        Error::from(ParseError::ValueNotInRange),
        Error::ParseError(ParseError::ValueNotInRange)
    ));
    assert!(matches!(
        Error::from(DataError::Expired),
        Error::DataError(DataError::Expired)
    ));
    let io_error = std::io::Error::new(std::io::ErrorKind::NotFound, "missing");
    assert!(matches!(Error::from(io_error), Error::IoError(_)));
}

#[test]
fn night_light_uses_12_hour_clock() {
    let mut night_light = night_light();
    night_light.set_uses_12_hour_clock(true);
    assert!(night_light.uses_12_hour_clock());
}

#[test]
fn night_light_reg_write_now() {
    let mut night_light = night_light();
    night_light.set_night_color_temp(Some(5000));
    let write = night_light.reg_write().unwrap();
    assert!(write.state.is_none());
    let settings =
        RawNightLightSettings::from_bytes(write.settings.unwrap(), Strictness::Strict).unwrap();
    assert_eq!(*settings.night_color_temp, Some(5000));
}

#[test]
fn night_light_summary_rows() {
    let mut night_light = night_light();
    night_light.set_schedule_type(ScheduleType::Explicit);
    night_light.set_scheduled_night(ClockTimeFrame {
        start: ClockTime::from_h_min(22, 30).unwrap(),
        end: ClockTime::from_h_min(6, 5).unwrap(),
    });
    night_light.set_night_color_temp(Some(3450));
    let rows = night_light.summary_rows("0.40".to_string(), "now".to_string());
    let expected: Vec<Option<(&str, &str)>> = vec![
        Some(("Active", "no")),
        Some(("Transition Cause", "schedule")),
        None,
        Some(("Warmth", "0.40")),
        Some(("Kelvin", "3450")),
        Some(("Preview Active", "no")),
        None,
        Some(("Schedule Active", "no")),
        Some(("Schedule Type (Effective)", "explicit")),
        Some(("Sunset to Sunrise", "(N/A)")),
        Some(("Explicit Night", "22:30-06:05")),
        None,
        Some(("Modified (Latest Possible)", "now")),
    ];
    let actual: Vec<Option<(&str, &str)>> = rows
        .iter()
        .map(|row| row.as_ref().map(|(name, value)| (*name, value.as_str())))
        .collect();
    assert_eq!(actual, expected);
}

#[test]
fn night_light_summary_rows_with_sunset_to_sunrise() {
    let mut night_light = NightLight::from_bytes(bytes(), Some(true)).unwrap();
    night_light.set_uses_12_hour_clock(true);
    let rows = night_light.summary_rows("x".to_string(), "y".to_string());
    assert_eq!(
        rows[4],
        Some(("Kelvin", "default (should be 4000)".to_string()))
    );
    assert_eq!(
        rows[8],
        Some(("Schedule Type (Effective)", "sunset to sunrise".to_string()))
    );
    assert_eq!(
        rows[10],
        Some(("Explicit Night", "(12:00am-12:00am)".to_string()))
    );
    let unknown = NightLight::from_bytes(bytes(), None).unwrap();
    let rows = unknown.summary_rows("x".to_string(), "y".to_string());
    assert_eq!(rows[8], Some(("Schedule Type (Effective)", "N/A".to_string())));
    assert_eq!(rows[9], Some(("Sunset to Sunrise", "N/A".to_string())));
}

#[test]
fn night_light_latest_possible_modified_filetime() {
    let night_light = night_light();
    // The settings' timestamp is later than the state's modification time.
    assert_eq!(
        night_light.latest_possible_modified_filetime(),
        1698408446 * 10_000_000 + 116444736000000000
    );
    let fallback = NightLight::lenient_fallback(NOW, None);
    assert_eq!(
        fallback.latest_possible_modified_filetime(),
        1_800_000_000 * 10_000_000 + 116444736000000000
    );
}

const BEYOND_2106: EpochDuration = EpochDuration {
    secs: u32::MAX as u64 + 1,
    subsec_nanos: 0,
};

#[test]
fn night_light_unchanged_writes_nothing_whatever_the_clock() {
    let write = night_light().reg_write_at(0, BEYOND_2106).unwrap();
    assert!(write.settings.is_none());
    assert!(write.state.is_none());
}

#[test]
fn night_light_change_beyond_2106_is_refused() {
    let mut night_light = night_light();
    night_light.set_night_color_temp(Some(3000));
    assert!(matches!(
        night_light.reg_write_at(0, BEYOND_2106),
        Err(DataError::TimestampOutOfRange)
    ));
}

#[test]
fn night_light_expiry_is_checked_before_the_clock() {
    let mut night_light = night_light();
    night_light.set_active(true);
    assert!(matches!(
        night_light.reg_write_at(1_000_000_001, BEYOND_2106),
        Err(DataError::Expired)
    ));
}

#[test]
fn night_light_refusal_is_checked_before_the_clock() {
    let mut night_light = night_light();
    night_light.set_active(true);
    night_light.set_schedule_active(true);
    assert!(matches!(
        night_light.reg_write_at(0, BEYOND_2106),
        Err(DataError::Irreconcilable(
            CompetingProps::StateVsStateChangingSettings
        ))
    ));
}
