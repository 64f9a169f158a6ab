use sem_reg::cloud_store::night_light::{RawNightLightState, TransitionCause};
use sem_reg::data_conversion::byte_seq::ParseError;
use sem_reg::data_conversion::time::{
    epoch_duration_to_epoch_secs, epoch_duration_to_filetime, now_as_epoch_duration,
    EpochDuration, LATEST_FILETIME,
};
use sem_reg::data_conversion::{Strictness, TrackedValue};

const SHORTEST: [u8; 38] = [
    0x43, 0x42, 0x01, 0x00, 0x0a, 0x02, 0x01, 0x00, 0x2a, 0x06, 0xae, 0x81, 0xd2, 0xa9, 0x06, 0x2a,
    0x2b, 0x0e, 0x10, 0x43, 0x42, 0x01, 0x00, 0xc6, 0x14, 0xe6, 0xfd, 0x92, 0xd6, 0xa9, 0x91, 0x81,
    0xed, 0x01, 0x00, 0x00, 0x00, 0x00,
];

const LONGEST: [u8; 43] = [
    0x43, 0x42, 0x01, 0x00, 0x0a, 0x02, 0x01, 0x00, 0x2a, 0x06, 0xae, 0x81, 0xd2, 0xa9, 0x06, 0x2a,
    0x2b, 0x0e, 0x15, 0x43, 0x42, 0x01, 0x00, 0x10, 0x00, 0xd0, 0x0a, 0x02, 0xc6, 0x14, 0xe6, 0xfd,
    0x92, 0xd6, 0xa9, 0x91, 0x81, 0xed, 0x01, 0x00, 0x00, 0x00, 0x00,
];

#[test]
fn state_shortest_from_and_to_bytes() {
    let bytes = SHORTEST;

    for strictness in [Strictness::Strict, Strictness::Lenient] {
        match RawNightLightState::from_bytes(bytes.to_vec(), strictness) {
            Ok(state) => {
                assert_eq!(*state.active, false);
                assert_eq!(state.transition_cause, TransitionCause::Schedule);
                assert_eq!(state.to_bytes().unwrap().len(), bytes.len());
            }
            result => panic!("{result:?}"),
        }
    }
}

#[test]
fn state_longest_from_and_to_bytes() {
    let bytes = LONGEST;

    for strictness in [Strictness::Strict, Strictness::Lenient] {
        match RawNightLightState::from_bytes(bytes.to_vec(), strictness) {
            Ok(state) => {
                assert_eq!(*state.active, true);
                assert_eq!(state.transition_cause, TransitionCause::Manual);
                assert_eq!(state.to_bytes().unwrap().len(), bytes.len());
            }
            result => panic!("{result:?}"),
        }
    }
}

#[test]
fn check_serialized_len() {
    let now_epoch_duration = now_as_epoch_duration();
    let now_epoch_secs = epoch_duration_to_epoch_secs(now_epoch_duration);
    let now_filetime = epoch_duration_to_filetime(now_epoch_duration);

    let state = RawNightLightState {
        prologue_epoch_secs: now_epoch_secs,
        active: TrackedValue::new(true),
        transition_cause: TransitionCause::Manual,
        modified_filetime: now_filetime,
    };
    assert_eq!(state.to_bytes().unwrap().len(), 43);

    let state = RawNightLightState {
        prologue_epoch_secs: now_epoch_secs,
        active: TrackedValue::new(false),
        transition_cause: TransitionCause::Manual,
        modified_filetime: now_filetime,
    };
    assert_eq!(state.to_bytes().unwrap().len(), 41);

    let state = RawNightLightState {
        prologue_epoch_secs: now_epoch_secs,
        active: TrackedValue::new(false),
        transition_cause: TransitionCause::Schedule,
        modified_filetime: now_filetime,
    };
    assert_eq!(state.to_bytes().unwrap().len(), 38);

    // (The timestamps won't make the byte count grow until at least the year 3000.)
}

#[test]
fn state_parses_the_modification_time() {
    let state = RawNightLightState::from_bytes(SHORTEST.to_vec(), Strictness::Strict).unwrap();
    // `e6 fd 92 d6 a9 91 81 ed 01` as a VLQ.
    assert_eq!(state.modified_filetime, 133424132309434086);
    // `ae 81 d2 a9 06` as a VLQ.
    assert_eq!(state.prologue_epoch_secs, 1697939630);
}

#[test]
fn state_roundtrip_at_a_given_time() {
    let now = EpochDuration {
        secs: 1_700_000_000,
        subsec_nanos: 123_456_789,
    };
    for bytes in [&SHORTEST[..], &LONGEST[..]] {
        let mut state = RawNightLightState::from_bytes(bytes.to_vec(), Strictness::Strict).unwrap();
        let was_active = *state.active;
        state.active.set(!was_active);
        let written = state.to_bytes_at(now);
        for strictness in [Strictness::Strict, Strictness::Lenient] {
            let parsed = RawNightLightState::from_bytes(written.clone(), strictness).unwrap();
            assert_eq!(*parsed.active, !was_active);
            assert_eq!(parsed.transition_cause, state.transition_cause);
            assert_eq!(parsed.modified_filetime, 133444736001234567);
            assert_eq!(parsed.prologue_epoch_secs, 1_700_000_000);
        }
    }
}

#[test]
fn state_timestamp_is_at_least_two_seconds_later() {
    let state = RawNightLightState::from_bytes(SHORTEST.to_vec(), Strictness::Strict).unwrap();
    let past = EpochDuration {
        secs: 1_000_000_000,
        subsec_nanos: 0,
    };
    let parsed = RawNightLightState::from_bytes(state.to_bytes_at(past), Strictness::Strict).unwrap();
    assert_eq!(parsed.prologue_epoch_secs, 1697939630 + 2);
}

#[test]
fn state_lenient_fallback() {
    let now = EpochDuration {
        secs: 1_700_000_000,
        subsec_nanos: 0,
    };
    let state = RawNightLightState::lenient_fallback(now);
    assert_eq!(state.prologue_epoch_secs, 1_700_000_000);
    assert_eq!(*state.active, false);
    assert_eq!(state.transition_cause, TransitionCause::Manual);
    assert_eq!(state.modified_filetime, 133444736000000000);
}

#[test]
fn state_rejects_a_filetime_beyond_the_latest() {
    let state = RawNightLightState {
        prologue_epoch_secs: 1_700_000_000,
        active: TrackedValue::new(false),
        transition_cause: TransitionCause::Schedule,
        modified_filetime: 0,
    };
    let mut bytes = state.to_bytes_at(EpochDuration {
        secs: 1_700_000_000,
        subsec_nanos: 0,
    });
    // Replace the `FILETIME` VLQ (after `c6 14`) by the VLQ of `LATEST_FILETIME + 1`.
    let start = 25;
    let mut latest_plus_one = (LATEST_FILETIME as u64) + 1;
    let mut vlq = Vec::new();
    while latest_plus_one >= 128 {
        vlq.push((latest_plus_one % 128) as u8 | 0x80);
        latest_plus_one /= 128;
    }
    vlq.push(latest_plus_one as u8);
    bytes.splice(start..start + 9, vlq);
    bytes[18] = (bytes.len() - 22) as u8;
    assert_eq!(
        RawNightLightState::from_bytes(bytes, Strictness::Lenient),
        Err(ParseError::ValueNotInRange)
    );
}

#[test]
fn state_rejects_a_zero_filetime() {
    let bytes = [
        0x43, 0x42, 0x01, 0x00, 0x0a, 0x02, 0x01, 0x00, 0x2a, 0x06, 0xae, 0x81, 0xd2, 0xa9, 0x06,
        0x2a, 0x2b, 0x0e, 0x08, 0x43, 0x42, 0x01, 0x00, 0xc6, 0x14, 0x00, 0x00, 0x00, 0x00, 0x00,
    ];
    for strictness in [Strictness::Strict, Strictness::Lenient] {
        assert_eq!(
            RawNightLightState::from_bytes(bytes.to_vec(), strictness),
            Err(ParseError::ValueNotInRange)
        );
    }
}

#[test]
fn state_to_bytes_checked_at() {
    let state = RawNightLightState::from_bytes(SHORTEST.to_vec(), Strictness::Strict).unwrap();
    let now = EpochDuration {
        secs: 1_800_000_000,
        subsec_nanos: 0,
    };
    assert_eq!(state.to_bytes_checked_at(now), Some(state.to_bytes_at(now)));
    assert_eq!(
        state.to_bytes_checked_at(EpochDuration {
            secs: u32::MAX as u64 + 1,
            subsec_nanos: 0,
        }),
        None
    );
    let late = RawNightLightState {
        prologue_epoch_secs: u32::MAX - 1,
        active: TrackedValue::new(false),
        transition_cause: TransitionCause::Manual,
        modified_filetime: 1,
    };
    assert_eq!(late.to_bytes_checked_at(now), None);
}

#[test]
fn state_requires_the_filetime_tag() {
    let mut bytes = SHORTEST.to_vec();
    bytes[23] = 0xc7;
    assert_eq!(
        RawNightLightState::from_bytes(bytes.clone(), Strictness::Strict),
        Err(ParseError::ExpectedConst(23))
    );
    assert_eq!(
        RawNightLightState::from_bytes(bytes, Strictness::Lenient),
        Err(ParseError::ExpectedConst(23))
    );
}

#[test]
fn state_lenient_overlooks_a_missing_trailer() {
    let mut bytes = SHORTEST.to_vec();
    bytes.truncate(bytes.len() - 2);
    bytes[18] = 0x0e;
    assert_eq!(
        RawNightLightState::from_bytes(bytes.clone(), Strictness::Strict),
        Err(ParseError::ExpectedZero(36))
    );
    let state = RawNightLightState::from_bytes(bytes, Strictness::Lenient).unwrap();
    assert_eq!(state.transition_cause, TransitionCause::Schedule);
}
