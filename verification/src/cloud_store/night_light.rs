//! Types to retrieve information about and control the Windows Night Light feature.
//!
//! In regular use cases, you should use the `NightLight` type. With the underlying raw types,
//! which are also public, there can be unexpected behavior or inconsistent states that, when
//! written to the registry, may not get resolved until restart of the OS or at least logging off:
//!
//! - Changing schedule-related settings - written to the settings registry value - may entail
//!   the state registry value - incl. the active-state - being changed by the OS. Trying to
//!   change both the settings and state registry value in close temporal proximity in an
//!   irreconcilable way may lead to one not being applied.
//! - Night preview must not be switched or held active while changing anything that may
//!   potentially switch the active-state (incl. schedule-related settings).
//! - After logging on to the OS, changing the color temperature on its own remains ineffective
//!   if preview mode wasn't at least once activated in the session.
//!
//! The `NightLight` type encapsulates both the state and settings registry value and only
//! writes one when you de facto changed its properties, compared with the data retrieved on
//! instance creation, failing if changes don't harmonize with other properties (changed or
//! unchanged). `NightLight` instances expire after a short duration to avoid race conditions.

pub mod settings;
pub mod state;
pub mod summary;
pub mod time;

pub use settings::{RawNightLightSettings, ScheduleType};
pub use state::{RawNightLightState, TransitionCause};
pub use time::{ClockTime, ClockTimeFrame, ClockTimeOrFrameFromStrError, Meridiem};

use vstd::prelude::*;
use vstd::std_specs::convert::FromSpecImpl;

use self::settings::{spec_settings, spec_settings_bytes, write_timestamps_fit};
use self::state::{spec_state, spec_state_bytes};
use crate::data_conversion::format::str_chars;
use crate::data_conversion::time::{now_as_epoch_duration, EpochDuration};
use crate::data_conversion::{
    lemma_tracked_value_spec_set, ParseError, Strictness, TrackedValue,
};

verus! {

broadcast use lemma_tracked_value_spec_set;

#[verifier::external_type_specification]
#[verifier::external_body]
pub struct ExInstant(std::time::Instant);

#[verifier::external_type_specification]
#[verifier::external_body]
pub struct ExIoError(std::io::Error);

/// `Instant::now()`: the current instant of the monotonic clock. Nothing is stated of it.
#[verifier::external_body]
fn instant_now() -> std::time::Instant {
    std::time::Instant::now()
}

/// `Instant::elapsed()`, in nanoseconds: the time that passed since `instant`. Nothing is
/// stated of it, as it depends on the clock.
#[verifier::external_body]
fn elapsed_nanos(instant: &std::time::Instant) -> u128 {
    instant.elapsed().as_nanos()
}

/// The Night Light state and settings, as loaded from the registry, with the changes made
/// since.
pub struct NightLight {
    state: RawNightLightState,
    settings: RawNightLightSettings,
    sunset_to_sunrise_possible: Option<bool>,
    uses_12_hour_clock: bool,
    loaded_instant: std::time::Instant,
    strictness: Strictness,
}

/// The raw state and settings parsed from the registry values' bytes.
pub open spec fn spec_night_light_parts(bytes: NightLightBytes, strictness: Strictness) -> Result<
    (RawNightLightState, RawNightLightSettings),
    ParseError,
> {
    match spec_state(bytes.state@, strictness) {
        Err(e) => Err(e),
        Ok(state) => match spec_settings(bytes.settings@, strictness) {
            Err(e) => Err(e),
            Ok(settings) => Ok((state, settings)),
        },
    }
}

/// The schedule type really in effect: "sunset to sunrise" falls back to the explicit schedule
/// when location services are off, and is unknown when that is unknown.
pub open spec fn spec_effective_schedule_type(
    schedule_type: ScheduleType,
    sunset_to_sunrise_possible: Option<bool>,
) -> Option<ScheduleType> {
    match schedule_type {
        ScheduleType::SunsetToSunrise => match sunset_to_sunrise_possible {
            None => None,
            Some(true) => Some(ScheduleType::SunsetToSunrise),
            Some(false) => Some(ScheduleType::Explicit),
        },
        ScheduleType::Explicit => Some(ScheduleType::Explicit),
    }
}

/// `temp` clamped to the range from `min` to `max`.
pub open spec fn clamp_u16(temp: u16, min: u16, max: u16) -> u16 {
    if temp < min {
        min
    } else if temp > max {
        max
    } else {
        temp
    }
}

/// Verifying the changes before writing: whether the state and whether the settings were
/// changed, or why the changes can't be written.
pub open spec fn spec_verify_state_and_settings(
    state: RawNightLightState,
    settings: RawNightLightSettings,
) -> Result<(bool, bool), DataError> {
    let active_changed = state.active.spec_changed();
    let schedule_active_changed = settings.schedule_active.spec_changed();
    let schedule_type_changed = settings.schedule_type.spec_changed();
    let scheduled_night_changed = settings.scheduled_night.spec_changed();
    let night_color_temp_changed = settings.night_color_temp.spec_changed();
    let night_preview_active_changed = settings.night_preview_active.spec_changed();

    let state_changed = active_changed;
    let settings_changed = schedule_active_changed || schedule_type_changed
        || scheduled_night_changed || night_color_temp_changed || night_preview_active_changed;
    let state_changing_settings_changed = schedule_active_changed || schedule_type_changed
        || scheduled_night_changed;

    if state_changed && state_changing_settings_changed {
        Err(DataError::Irreconcilable(CompetingProps::StateVsStateChangingSettings))
    } else if (settings.night_preview_active.value() || night_preview_active_changed) && (
    state_changed || state_changing_settings_changed) {
        if night_preview_active_changed {
            Err(
                DataError::Irreconcilable(
                    if state_changed {
                        CompetingProps::StateVsNightPreview
                    } else {
                        CompetingProps::StateChangingSettingsVsNightPreview
                    },
                ),
            )
        } else {
            Err(DataError::NightPreviewInProgress)
        }
    } else {
        Ok((state_changed, settings_changed))
    }
}

/// The state as written by this crate: with a changed active-state, Windows is told that the
/// change was manual.
pub open spec fn manual_state(state: RawNightLightState) -> RawNightLightState {
    RawNightLightState { transition_cause: TransitionCause::Manual, ..state }
}

/// The registry writes for the state and settings at the time `now`, `elapsed_nanos` after
/// loading: the settings bytes and the state bytes, each if changed.
pub open spec fn spec_reg_write(
    state: RawNightLightState,
    settings: RawNightLightSettings,
    elapsed_nanos: u128,
    now: EpochDuration,
) -> Result<(Option<Seq<u8>>, Option<Seq<u8>>), DataError> {
    if elapsed_nanos > NightLight::EXPIRATION_TIMEOUT_MILLIS * 1_000_000 {
        Err(DataError::Expired)
    } else {
        match spec_verify_state_and_settings(state, settings) {
            Err(e) => Err(e),
            Ok((state_changed, settings_changed)) => if (settings_changed
                && !write_timestamps_fit(settings.prologue_epoch_secs, now)) || (state_changed
                && !write_timestamps_fit(state.prologue_epoch_secs, now)) {
                Err(DataError::TimestampOutOfRange)
            } else {
                Ok(
                (
                    if settings_changed {
                        Some(spec_settings_bytes(settings, now))
                    } else {
                        None
                    },
                    if state_changed {
                        Some(spec_state_bytes(manual_state(state), now))
                    } else {
                        None
                    },
                ),
            )
            },
        }
    }
}

/// The bytes of a registry write, or why there is none.
pub open spec fn reg_write_view(r: Result<RegWrite, DataError>) -> Result<
    (Option<Seq<u8>>, Option<Seq<u8>>),
    DataError,
> {
    match r {
        Err(e) => Err(e),
        Ok(write) => Ok(
            (
                match write.settings {
                    Some(b) => Some(b@),
                    None => None,
                },
                match write.state {
                    Some(b) => Some(b@),
                    None => None,
                },
            ),
        ),
    }
}

/// Whether location services allow the "sunset to sunrise" schedule, from the `Value`s of the
/// location consent keys (of the machine, of the user's apps, of the user's desktop apps), in
/// this order from position `i` on: they count as on only if every value reads exactly `Allow`.
/// The first value that can't be read makes the answer unknown (`None`); the first one that
/// reads otherwise makes it `Some(false)`.
pub open spec fn spec_location_services_allow(values: Seq<Option<Seq<char>>>, i: nat) -> Option<
    bool,
>
    decreases values.len() - i,
{
    if i >= values.len() {
        Some(true)
    } else {
        match values[i as int] {
            None => None,
            Some(value) => if value != "Allow"@ {
                Some(false)
            } else {
                spec_location_services_allow(values, i + 1)
            },
        }
    }
}

/// The texts of values that may be unreadable.
pub open spec fn optional_texts(values: Seq<Option<String>>) -> Seq<Option<Seq<char>>> {
    values.map_values(
        |value: Option<String>|
            match value {
                Some(s) => Some(s@),
                None => None,
            },
    )
}

/// Whether `s` is exactly `Allow`.
fn is_allow(s: &str) -> (r: bool)
    ensures
        r == (s@ == "Allow"@),
{
    proof {
        reveal_strlit("Allow");
    }
    let chars = str_chars(s);
    if chars.len() == 5 && chars[0] == 'A' && chars[1] == 'l' && chars[2] == 'l' && chars[3]
        == 'o' && chars[4] == 'w' {
        assert(s@ =~= "Allow"@);
        true
    } else {
        assert(s@ != "Allow"@) by {
            if s@ == "Allow"@ {
                assert(chars@.len() == 5);
                assert(chars@[0] == 'A' && chars@[1] == 'l' && chars@[2] == 'l');
                assert(chars@[3] == 'o' && chars@[4] == 'w');
            }
        }
        false
    }
}

/// Whether the "sunset to sunrise" schedule is available, because location services are turned
/// on, given the `Value`s of the location consent keys as read from the registry (`None` where
/// one couldn't be read): of the machine, of the user's apps and of the user's desktop apps. If
/// not, the explicit schedule is the fallback. Returns `None` if a value needed for the answer
/// couldn't be read.
pub fn location_services_allow(values: &[Option<String>]) -> (r: Option<bool>)
    ensures
        r == spec_location_services_allow(optional_texts(values@), 0),
{
    let ghost texts = optional_texts(values@);
    let n = values.len();
    let mut i: usize = 0;
    while i < n
        invariant
            i <= n,
            n == values@.len(),
            texts == optional_texts(values@),
            spec_location_services_allow(texts, i as nat) == spec_location_services_allow(
                texts,
                0,
            ),
        decreases n - i,
    {
        match &values[i] {
            None => {
                return None;
            },
            Some(value) => {
                if !is_allow(value.as_str()) {
                    return Some(false);
                }
            },
        }
        i = i + 1;
    }
    Some(true)
}

/// The bytes to write to the registry: first the settings value, then the state value, each
/// only where it was changed.
#[derive(Debug)]
pub struct RegWrite {
    pub settings: Option<Vec<u8>>,
    pub state: Option<Vec<u8>>,
}

impl NightLight {
    /// The lowest Kelvin value last known to be valid (as of Oct. 2023).
    pub const MIN_NIGHT_COLOR_TEMP: u16 = 1200;

    pub const MAX_NIGHT_COLOR_TEMP: u16 = 6500;

    /// Alias for minimum.
    pub const WARMEST_NIGHT_COLOR_TEMP: u16 = 1200;

    /// Alias for maximum.
    pub const COLDEST_NIGHT_COLOR_TEMP: u16 = 6500;

    /// Official default as of Dec. 2023.
    pub const DEFAULT_NIGHT_COLOR_TEMP: u16 = 4000;

    /// The time after loading, in milliseconds, after which an instance expires. May be shortened
    /// in future versions.
    pub const EXPIRATION_TIMEOUT_MILLIS: u64 = 1000;

    /// The loaded (and possibly changed) state.
    pub closed spec fn raw_state(self) -> RawNightLightState {
        self.state
    }

    /// The loaded (and possibly changed) settings.
    pub closed spec fn raw_settings(self) -> RawNightLightSettings {
        self.settings
    }

    /// Whether location services allow the "sunset to sunrise" schedule, if known.
    pub closed spec fn spec_sunset_to_sunrise_possible(self) -> Option<bool> {
        self.sunset_to_sunrise_possible
    }

    /// Whether clock times are displayed with 12 hours.
    pub closed spec fn spec_uses_12_hour_clock(self) -> bool {
        self.uses_12_hour_clock
    }

    /// The strictness the instance was loaded with.
    pub closed spec fn spec_strictness(self) -> Strictness {
        self.strictness
    }

    /// The instant at which the instance was loaded.
    pub closed spec fn spec_loaded_instant(self) -> std::time::Instant {
        self.loaded_instant
    }

    /// The same instant of loading, strictness and display settings.
    pub open spec fn same_context(self, other: Self) -> bool {
        &&& self.spec_sunset_to_sunrise_possible() == other.spec_sunset_to_sunrise_possible()
        &&& self.spec_uses_12_hour_clock() == other.spec_uses_12_hour_clock()
        &&& self.spec_loaded_instant() == other.spec_loaded_instant()
        &&& self.spec_strictness() == other.spec_strictness()
    }

    /// Creates a strict instance using [`Self::from_bytes_with_strictness()`].
    pub fn from_bytes(bytes: NightLightBytes, sunset_to_sunrise_possible: Option<bool>) -> (r:
        Result<Self, ParseError>)
        ensures
            Self::spec_from_bytes(bytes, Strictness::Strict, sunset_to_sunrise_possible, r),
    {
        Self::from_bytes_with_strictness(bytes, Strictness::Strict, sunset_to_sunrise_possible)
    }

    /// Creates a lenient instance using [`Self::from_bytes_with_strictness()`].
    pub fn from_bytes_lenient(bytes: NightLightBytes, sunset_to_sunrise_possible: Option<bool>) -> (r:
        Result<Self, ParseError>)
        ensures
            Self::spec_from_bytes(bytes, Strictness::Lenient, sunset_to_sunrise_possible, r),
    {
        Self::from_bytes_with_strictness(bytes, Strictness::Lenient, sunset_to_sunrise_possible)
    }

    /// What parsing the registry values' bytes gives: an instance with the parsed state and
    /// settings, or the first parse error.
    pub open spec fn spec_from_bytes(
        bytes: NightLightBytes,
        strictness: Strictness,
        sunset_to_sunrise_possible: Option<bool>,
        r: Result<Self, ParseError>,
    ) -> bool {
        match spec_night_light_parts(bytes, strictness) {
            Err(e) => r == Err::<Self, ParseError>(e),
            Ok((state, settings)) => r matches Ok(night_light) && night_light.raw_state() == state
                && night_light.raw_settings() == settings
                && night_light.spec_sunset_to_sunrise_possible() == sunset_to_sunrise_possible
                && !night_light.spec_uses_12_hour_clock() && night_light.spec_strictness()
                == strictness,
        }
    }

    /// Parses the state and settings registry values' bytes. `sunset_to_sunrise_possible` is
    /// what [`NightLight::sunset_to_sunrise_possible()`] found in the registry.
    pub fn from_bytes_with_strictness(
        bytes: NightLightBytes,
        strictness: Strictness,
        sunset_to_sunrise_possible: Option<bool>,
    ) -> (r: Result<Self, ParseError>)
        ensures
            Self::spec_from_bytes(bytes, strictness, sunset_to_sunrise_possible, r),
    {
        let ghost b = bytes;
        let NightLightBytes { state, settings } = bytes;
        let state = RawNightLightState::from_bytes(state, strictness)?;
        let settings = RawNightLightSettings::from_bytes(settings, strictness)?;
        Ok(
            Self {
                state,
                settings,
                sunset_to_sunrise_possible,
                uses_12_hour_clock: false,
                loaded_instant: instant_now(),
                strictness,
            },
        )
    }

    /// The instance for when the registry values don't exist, at the time `now`: lenient, with
    /// the fallback state and settings.
    pub fn lenient_fallback(now: EpochDuration, sunset_to_sunrise_possible: Option<bool>) -> (r:
        Self)
        requires
            now.in_range(),
        ensures
            r.raw_state() == state::state_of(now.secs as u32, false, true, now.filetime() as i64),
            r.raw_settings() == settings::settings_of(
                now.secs as u32,
                false,
                false,
                ClockTime::spec_new(21, 0),
                ClockTime::spec_new(7, 0),
                Some(4000u16),
                None,
                false,
            ),
            r.spec_sunset_to_sunrise_possible() == sunset_to_sunrise_possible,
            !r.spec_uses_12_hour_clock(),
            r.spec_strictness() == Strictness::Lenient,
    {
        Self {
            state: RawNightLightState::lenient_fallback(now),
            settings: RawNightLightSettings::lenient_fallback(now),
            sunset_to_sunrise_possible,
            uses_12_hour_clock: false,
            loaded_instant: instant_now(),
            strictness: Strictness::Lenient,
        }
    }

    /// Whether night time color temperature is currently in effect, be it because manually
    /// chosen or by schedule.
    pub fn active(&self) -> (r: bool)
        ensures
            r == self.raw_state().active.value(),
    {
        *self.state.active.get()
    }

    pub fn set_active(&mut self, active: bool)
        ensures
            final(self).raw_state() == (RawNightLightState {
                active: old(self).raw_state().active.spec_set(active),
                ..old(self).raw_state()
            }),
            final(self).raw_settings() == old(self).raw_settings(),
            final(self).same_context(*old(self)),
    {
        self.state.active.set(active);
    }

    pub fn transition_cause(&self) -> (r: TransitionCause)
        ensures
            r == self.raw_state().transition_cause,
    {
        self.state.transition_cause
    }

    /// The state registry value's modification timestamp as a `FILETIME` (always greater than
    /// 0).
    pub fn state_modified_filetime(&self) -> (r: i64)
        ensures
            r == self.raw_state().modified_filetime,
    {
        self.state.modified_filetime
    }

    /// The settings registry value's modification timestamp, or a value somewhat later when many
    /// changes were performed in quick succession (e.g., by moving the slider in the official
    /// settings).
    pub fn latest_possible_settings_modified_epoch_secs(&self) -> (r: u32)
        ensures
            r == self.raw_settings().prologue_epoch_secs,
    {
        self.settings.prologue_epoch_secs
    }

    pub fn schedule_active(&self) -> (r: bool)
        ensures
            r == self.raw_settings().schedule_active.value(),
    {
        *self.settings.schedule_active.get()
    }

    pub fn set_schedule_active(&mut self, schedule_active: bool)
        ensures
            final(self).raw_settings() == (RawNightLightSettings {
                schedule_active: old(self).raw_settings().schedule_active.spec_set(schedule_active),
                ..old(self).raw_settings()
            }),
            final(self).raw_state() == old(self).raw_state(),
            final(self).same_context(*old(self)),
    {
        self.settings.schedule_active.set(schedule_active);
    }

    /// The theoretical schedule type. The one really in effect also depends on the state of
    /// location services. See also [`Self::effective_schedule_type()`].
    pub fn schedule_type(&self) -> (r: ScheduleType)
        ensures
            r == self.raw_settings().schedule_type.value(),
    {
        *self.settings.schedule_type.get()
    }

    /// The schedule type really in effect, which also depends on location services being turned
    /// on or off. Returns `None` on schedule type "Sunset to sunrise", if
    /// [`NightLight::sunset_to_sunrise_possible()`] did.
    pub fn effective_schedule_type(&self) -> (r: Option<ScheduleType>)
        ensures
            r == spec_effective_schedule_type(
                self.raw_settings().schedule_type.value(),
                self.spec_sunset_to_sunrise_possible(),
            ),
    {
        match *self.settings.schedule_type.get() {
            ScheduleType::SunsetToSunrise => match self.sunset_to_sunrise_possible {
                None => None,
                Some(possible) => if possible {
                    Some(ScheduleType::SunsetToSunrise)
                } else {
                    Some(ScheduleType::Explicit)
                },
            },
            ScheduleType::Explicit => Some(ScheduleType::Explicit),
        }
    }

    /// Because the explicit schedule is the fallback of "Sunset to sunrise", there won't be a
    /// change of the effective schedule type when location services are off. The change is
    /// still performed however.
    pub fn set_schedule_type(&mut self, schedule_type: ScheduleType)
        ensures
            final(self).raw_settings() == (RawNightLightSettings {
                schedule_type: old(self).raw_settings().schedule_type.spec_set(schedule_type),
                ..old(self).raw_settings()
            }),
            final(self).raw_state() == old(self).raw_state(),
            final(self).same_context(*old(self)),
    {
        self.settings.schedule_type.set(schedule_type);
    }

    /// Returns `None`, if all of the respective hour and minute values in the registry value
    /// were zero.
    pub fn sunset_to_sunrise(&self) -> (r: Option<ClockTimeFrame>)
        ensures
            r == self.raw_settings().sunset_to_sunrise,
    {
        self.settings.sunset_to_sunrise
    }

    /// The clock times defining the explicit schedule.
    pub fn scheduled_night(&self) -> (r: ClockTimeFrame)
        ensures
            r == self.raw_settings().scheduled_night.value(),
    {
        *self.settings.scheduled_night.get()
    }

    /// Any combination of clock times precise to the minute is adhered to. Two times the same
    /// clock time means zero-length night.
    pub fn set_scheduled_night(&mut self, scheduled_night: ClockTimeFrame)
        ensures
            final(self).raw_settings() == (RawNightLightSettings {
                scheduled_night: old(self).raw_settings().scheduled_night.spec_set(
                    scheduled_night,
                ),
                ..old(self).raw_settings()
            }),
            final(self).raw_state() == old(self).raw_state(),
            final(self).same_context(*old(self)),
    {
        self.settings.scheduled_night.set(scheduled_night);
    }

    /// The night time color temperature in Kelvin. May possibly be out of the range of the
    /// constants. Returns `None`, if the information wasn't present in the registry value, in
    /// which case Windows applies the default.
    pub fn night_color_temp(&self) -> (r: Option<u16>)
        ensures
            r == self.raw_settings().night_color_temp.value(),
    {
        *self.settings.night_color_temp.get()
    }

    /// The color temperature guaranteed to be in the range of the constants.
    pub fn night_color_temp_in_range(&self) -> (r: Option<u16>)
        ensures
            r == match self.raw_settings().night_color_temp.value() {
                Some(temp) => Some(
                    clamp_u16(temp, Self::MIN_NIGHT_COLOR_TEMP, Self::MAX_NIGHT_COLOR_TEMP),
                ),
                None => None::<u16>,
            },
    {
        match *self.settings.night_color_temp.get() {
            Some(temp) => Some(
                if temp < Self::MIN_NIGHT_COLOR_TEMP {
                    Self::MIN_NIGHT_COLOR_TEMP
                } else if temp > Self::MAX_NIGHT_COLOR_TEMP {
                    Self::MAX_NIGHT_COLOR_TEMP
                } else {
                    temp
                },
            ),
            None => None,
        }
    }

    /// Windows corrects the value to lie in the valid range. `None` makes Windows apply the
    /// default.
    pub fn set_night_color_temp(&mut self, night_color_temp: Option<u16>)
        ensures
            final(self).raw_settings() == (RawNightLightSettings {
                night_color_temp: old(self).raw_settings().night_color_temp.spec_set(
                    night_color_temp,
                ),
                ..old(self).raw_settings()
            }),
            final(self).raw_state() == old(self).raw_state(),
            final(self).same_context(*old(self)),
    {
        self.settings.night_color_temp.set(night_color_temp);
    }

    /// Whether preview mode with a hard change to night color temperature is in effect. The
    /// official Night Light settings activate this while moving the color temperature slider.
    pub fn night_preview_active(&self) -> (r: bool)
        ensures
            r == self.raw_settings().night_preview_active.value(),
    {
        *self.settings.night_preview_active.get()
    }

    pub fn set_night_preview_active(&mut self, night_preview_active: bool)
        ensures
            final(self).raw_settings() == (RawNightLightSettings {
                night_preview_active: old(self).raw_settings().night_preview_active.spec_set(
                    night_preview_active,
                ),
                ..old(self).raw_settings()
            }),
            final(self).raw_state() == old(self).raw_state(),
            final(self).same_context(*old(self)),
    {
        self.settings.night_preview_active.set(night_preview_active);
    }

    /// Only for display purposes.
    pub fn set_uses_12_hour_clock(&mut self, uses_12_hour_clock: bool)
        ensures
            final(self).raw_state() == old(self).raw_state(),
            final(self).raw_settings() == old(self).raw_settings(),
            final(self).spec_uses_12_hour_clock() == uses_12_hour_clock,
            final(self).spec_sunset_to_sunrise_possible()
                == old(self).spec_sunset_to_sunrise_possible(),
            final(self).spec_strictness() == old(self).spec_strictness(),
            final(self).spec_loaded_instant() == old(self).spec_loaded_instant(),
    {
        self.uses_12_hour_clock = uses_12_hour_clock;
    }

    /// Whether clock times are displayed with 12 hours.
    pub fn uses_12_hour_clock(&self) -> (r: bool)
        ensures
            r == self.spec_uses_12_hour_clock(),
    {
        self.uses_12_hour_clock
    }

    /// Whether the "sunset to sunrise" schedule was found possible when loading, if known.
    pub fn sunset_to_sunrise_possible_when_loaded(&self) -> (r: Option<bool>)
        ensures
            r == self.spec_sunset_to_sunrise_possible(),
    {
        self.sunset_to_sunrise_possible
    }

    /// The strictness the instance was loaded with.
    pub fn strictness(&self) -> (r: Strictness)
        ensures
            r == self.spec_strictness(),
    {
        self.strictness
    }

    /// The instant at which the instance was loaded.
    pub fn loaded_instant(&self) -> (r: std::time::Instant)
        ensures
            r == self.spec_loaded_instant(),
    {
        self.loaded_instant
    }

    /// The loaded (and possibly changed) state.
    pub fn state(&self) -> (r: &RawNightLightState)
        ensures
            *r == self.raw_state(),
    {
        &self.state
    }

    /// The loaded (and possibly changed) settings.
    pub fn settings(&self) -> (r: &RawNightLightSettings)
        ensures
            *r == self.raw_settings(),
    {
        &self.settings
    }

    /// Returns whether the state and the settings were changed, or why the changes can't be
    /// written.
    fn verify_state_and_settings(&self) -> (r: Result<(bool, bool), DataError>)
        ensures
            r == spec_verify_state_and_settings(self.raw_state(), self.raw_settings()),
    {
        let active_changed = self.state.active.changed();

        let schedule_active_changed = self.settings.schedule_active.changed();
        let schedule_type_changed = self.settings.schedule_type.changed();
        let scheduled_night_changed = self.settings.scheduled_night.changed();
        let night_color_temp_changed = self.settings.night_color_temp.changed();
        let night_preview_active_changed = self.settings.night_preview_active.changed();

        let state_changed = active_changed;
        let settings_changed = schedule_active_changed || schedule_type_changed
            || scheduled_night_changed || night_color_temp_changed || night_preview_active_changed;
        let state_changing_settings_changed = schedule_active_changed || schedule_type_changed
            || scheduled_night_changed;

        if state_changed && state_changing_settings_changed {
            return Err(DataError::Irreconcilable(CompetingProps::StateVsStateChangingSettings));
        }
        if (*self.settings.night_preview_active.get() || night_preview_active_changed) && (
        state_changed || state_changing_settings_changed) {
            return Err(
                if night_preview_active_changed {
                    DataError::Irreconcilable(
                        if state_changed {
                            CompetingProps::StateVsNightPreview
                        } else {
                            CompetingProps::StateChangingSettingsVsNightPreview
                        },
                    )
                } else {
                    DataError::NightPreviewInProgress
                },
            );
        }
        Ok((state_changed, settings_changed))
    }

    /// The first step of initializing after log-on (see the application's `init`): unless
    /// preview mode is already active, activates it, with the coldest color temperature if Night
    /// Light is inactive, to make the previewing invisible. Returns `None` if preview mode was
    /// active and nothing is to be done; else what [`Self::finish_init()`] is to restore:
    /// `Some(temp)` with the color temperature that was replaced (`temp` may be `None`, for the
    /// default), or `None` if Night Light is active and the color temperature stays.
    pub fn start_init(&mut self) -> (r: Option<Option<Option<u16>>>)
        ensures
            old(self).raw_settings().night_preview_active.value() ==> r is None && *final(self)
                == *old(self),
            !old(self).raw_settings().night_preview_active.value() ==> {
                let settings = old(self).raw_settings();
                let active = old(self).raw_state().active.value();
                let with_temp = if active {
                    settings
                } else {
                    RawNightLightSettings {
                        night_color_temp: settings.night_color_temp.spec_set(
                            Some(Self::COLDEST_NIGHT_COLOR_TEMP),
                        ),
                        ..settings
                    }
                };
                &&& r == Some(
                    if active {
                        None::<Option<u16>>
                    } else {
                        Some(settings.night_color_temp.value())
                    },
                )
                &&& final(self).raw_settings() == (RawNightLightSettings {
                    night_preview_active: with_temp.night_preview_active.spec_set(true),
                    ..with_temp
                })
                &&& final(self).raw_state() == old(self).raw_state()
                &&& final(self).same_context(*old(self))
            },
    {
        if self.night_preview_active() {
            return None;
        }
        let previous_temp = if self.active() {
            None
        } else {
            let temp = self.night_color_temp();
            // Make it invisible.
            self.set_night_color_temp(Some(Self::COLDEST_NIGHT_COLOR_TEMP));
            Some(temp)
        };
        self.set_night_preview_active(true);
        Some(previous_temp)
    }

    /// The second step of initializing after log-on, on a freshly loaded instance: sets back the
    /// color temperature that [`Self::start_init()`] replaced, if it replaced one (`None`
    /// included, for the default), and deactivates preview mode.
    pub fn finish_init(&mut self, previous_temp: Option<Option<u16>>)
        ensures
            ({
                let settings = old(self).raw_settings();
                let with_temp = match previous_temp {
                    Some(temp) => RawNightLightSettings {
                        night_color_temp: settings.night_color_temp.spec_set(temp),
                        ..settings
                    },
                    None => settings,
                };
                final(self).raw_settings() == (RawNightLightSettings {
                    night_preview_active: with_temp.night_preview_active.spec_set(false),
                    ..with_temp
                })
            }),
            final(self).raw_state() == old(self).raw_state(),
            final(self).same_context(*old(self)),
    {
        if let Some(temp) = previous_temp {
            self.set_night_color_temp(temp);
        }
        self.set_night_preview_active(false);
    }

    /// The bytes to write to the registry at the time `now`, `elapsed_nanos` nanoseconds after
    /// the instance was loaded: only the changed values, and the state with a manual transition
    /// cause. Fails if the instance expired or the changes don't harmonize, checked in this
    /// order, and then if a timestamp to be written lies beyond what the format can hold.
    pub fn reg_write_at(self, elapsed_nanos: u128, now: EpochDuration) -> (r: Result<
        RegWrite,
        DataError,
    >)
        ensures
            reg_write_view(r) == spec_reg_write(
                self.raw_state(),
                self.raw_settings(),
                elapsed_nanos,
                now,
            ),
    {
        if elapsed_nanos > Self::EXPIRATION_TIMEOUT_MILLIS as u128 * 1_000_000 {
            return Err(DataError::Expired);
        }
        let (state_changed, settings_changed) = self.verify_state_and_settings()?;
        let mut night_light = self;
        let settings_bytes = if settings_changed {
            match night_light.settings.to_bytes_checked_at(now) {
                Some(bytes) => Some(bytes),
                None => return Err(DataError::TimestampOutOfRange),
            }
        } else {
            None
        };
        let state_bytes = if state_changed {
            // Only Windows is allowed to write the other value, because it does so by schedule.
            night_light.state.transition_cause = TransitionCause::Manual;
            match night_light.state.to_bytes_checked_at(now) {
                Some(bytes) => Some(bytes),
                None => return Err(DataError::TimestampOutOfRange),
            }
        } else {
            None
        };
        Ok(RegWrite { settings: settings_bytes, state: state_bytes })
    }

    /// The bytes to write to the registry now (see [`Self::reg_write_at()`]). How much time
    /// elapsed since loading, and which time it is now, depend on the system's clocks.
    pub fn reg_write(self) -> (r: Result<RegWrite, DataError>)
        ensures
            exists|elapsed_nanos: u128, now: EpochDuration|
                {
                    &&& now.wf()
                    &&& reg_write_view(r) == #[trigger] spec_reg_write(
                        self.raw_state(),
                        self.raw_settings(),
                        elapsed_nanos,
                        now,
                    )
                },
    {
        let elapsed = elapsed_nanos(&self.loaded_instant);
        let now = now_as_epoch_duration();
        self.reg_write_at(elapsed, now)
    }
}

// ---------------------------------------------------------------------------------------------
// Laws.
// ---------------------------------------------------------------------------------------------

/// Whether any of the settings that may make Windows change the state were changed.
pub open spec fn state_changing_settings_changed(settings: RawNightLightSettings) -> bool {
    settings.schedule_active.spec_changed() || settings.schedule_type.spec_changed()
        || settings.scheduled_night.spec_changed()
}

/// Whether any of the settings were changed.
pub open spec fn any_settings_changed(settings: RawNightLightSettings) -> bool {
    state_changing_settings_changed(settings) || settings.night_color_temp.spec_changed()
        || settings.night_preview_active.spec_changed()
}

/// Law: a freshly loaded instance has nothing changed: it writes nothing until a property is
/// set to a value that differs from the loaded one.
#[verifier::spinoff_prover]
pub proof fn lemma_loaded_unchanged(bytes: NightLightBytes, strictness: Strictness)
    ensures
        spec_night_light_parts(bytes, strictness) matches Ok((state, settings)) ==> {
            &&& !state.active.spec_changed()
            &&& !any_settings_changed(settings)
            &&& spec_verify_state_and_settings(state, settings) == Ok::<(bool, bool), DataError>(
                (false, false),
            )
        },
{
    broadcast use crate::data_conversion::lemma_tracked_value_spec_new;

    reveal(settings::spec_settings_body);
    reveal(settings::spec_settings_rest);
}

/// Law: an instance that expired is refused, whatever was changed.
pub proof fn lemma_expired_write_refused(
    state: RawNightLightState,
    settings: RawNightLightSettings,
    elapsed_nanos: u128,
    now: EpochDuration,
)
    requires
        elapsed_nanos > NightLight::EXPIRATION_TIMEOUT_MILLIS * 1_000_000,
    ensures
        spec_reg_write(state, settings, elapsed_nanos, now) == Err::<
            (Option<Seq<u8>>, Option<Seq<u8>>),
            DataError,
        >(DataError::Expired),
{
}

/// Law: an instance in time writes a registry value only where its properties de facto
/// changed, and then its current values: the settings value if and only if a setting changed,
/// the state value if and only if the active-state changed. An instance without changes writes
/// nothing.
pub proof fn lemma_write_only_changes(
    state: RawNightLightState,
    settings: RawNightLightSettings,
    elapsed_nanos: u128,
    now: EpochDuration,
)
    requires
        elapsed_nanos <= NightLight::EXPIRATION_TIMEOUT_MILLIS * 1_000_000,
        spec_verify_state_and_settings(state, settings) is Ok,
        any_settings_changed(settings) ==> write_timestamps_fit(settings.prologue_epoch_secs, now),
        state.active.spec_changed() ==> write_timestamps_fit(state.prologue_epoch_secs, now),
    ensures
        spec_reg_write(state, settings, elapsed_nanos, now) == Ok::<
            (Option<Seq<u8>>, Option<Seq<u8>>),
            DataError,
        >(
            (
                if any_settings_changed(settings) {
                    Some(spec_settings_bytes(settings, now))
                } else {
                    None
                },
                if state.active.spec_changed() {
                    Some(spec_state_bytes(manual_state(state), now))
                } else {
                    None
                },
            ),
        ),
{
}

/// Law: a timestamp beyond what the format can hold refuses a write only where a value is to be
/// written, and only after expiry and the harmony of the changes were checked: an instance in
/// time without changes writes nothing, whatever the clock says.
pub proof fn lemma_out_of_range_refused_only_for_writes(
    state: RawNightLightState,
    settings: RawNightLightSettings,
    elapsed_nanos: u128,
    now: EpochDuration,
)
    requires
        elapsed_nanos <= NightLight::EXPIRATION_TIMEOUT_MILLIS * 1_000_000,
        spec_verify_state_and_settings(state, settings) is Ok,
    ensures
        (any_settings_changed(settings) && !write_timestamps_fit(settings.prologue_epoch_secs, now))
            || (state.active.spec_changed() && !write_timestamps_fit(state.prologue_epoch_secs, now))
            ==> spec_reg_write(state, settings, elapsed_nanos, now) == Err::<
            (Option<Seq<u8>>, Option<Seq<u8>>),
            DataError,
        >(DataError::TimestampOutOfRange),
        !any_settings_changed(settings) && !state.active.spec_changed() ==> spec_reg_write(
            state,
            settings,
            elapsed_nanos,
            now,
        ) == Ok::<(Option<Seq<u8>>, Option<Seq<u8>>), DataError>((None, None)),
{
}

/// Law: only the schedule settings (whether the schedule is active, its type and the scheduled
/// night) compete with a change of the active-state; the color temperature doesn't. A changed
/// active-state is refused for competing with changed settings only where a schedule setting
/// changed, and without a changed schedule setting, and with night preview neither active nor
/// changed, every change is accepted: the state is written if the active-state changed, the
/// settings if the color temperature changed.
pub proof fn lemma_only_schedule_settings_compete_with_the_state(
    state: RawNightLightState,
    settings: RawNightLightSettings,
)
    ensures
        spec_verify_state_and_settings(state, settings) == Err::<(bool, bool), DataError>(
            DataError::Irreconcilable(CompetingProps::StateVsStateChangingSettings),
        ) ==> state.active.spec_changed() && (settings.schedule_active.spec_changed()
            || settings.schedule_type.spec_changed() || settings.scheduled_night.spec_changed()),
        !settings.schedule_active.spec_changed() && !settings.schedule_type.spec_changed()
            && !settings.scheduled_night.spec_changed() && !settings.night_preview_active.value()
            && !settings.night_preview_active.spec_changed() ==> spec_verify_state_and_settings(
            state,
            settings,
        ) == Ok::<(bool, bool), DataError>(
            (state.active.spec_changed(), settings.night_color_temp.spec_changed()),
        ),
{
}

/// Law: changes are refused where they don't harmonize. A changed active-state is never
/// written together with changed schedule settings, nor while night preview is or becomes
/// active; changed schedule settings are never written while night preview is or becomes
/// active. What is refused is refused with the reason the documentation gives.
pub proof fn lemma_irreconcilable_changes_refused(
    state: RawNightLightState,
    settings: RawNightLightSettings,
)
    ensures
        state.active.spec_changed() && state_changing_settings_changed(settings)
            ==> spec_verify_state_and_settings(state, settings) == Err::<(bool, bool), DataError>(
            DataError::Irreconcilable(CompetingProps::StateVsStateChangingSettings),
        ),
        spec_verify_state_and_settings(state, settings) is Ok ==> {
            &&& !(state.active.spec_changed() && state_changing_settings_changed(settings))
            &&& (state.active.spec_changed() || state_changing_settings_changed(settings)) ==> (
            !settings.night_preview_active.value()
                && !settings.night_preview_active.spec_changed())
        },
        !state.active.spec_changed() && !any_settings_changed(settings)
            ==> spec_verify_state_and_settings(state, settings) == Ok::<(bool, bool), DataError>(
            (false, false),
        ),
{
}

/// Law: what an instance writes reads back as its current state and settings. Parsing the
/// written settings bytes gives the current settings (with the timestamp written, and the
/// sunset-to-sunrise frame as Windows reads it); parsing the written state bytes gives the
/// current active-state, with a manual transition cause and `now` as the modification time.
pub proof fn lemma_write_reads_back(
    state: RawNightLightState,
    settings: RawNightLightSettings,
    elapsed_nanos: u128,
    now: EpochDuration,
    strictness: Strictness,
)
    requires
        now.filetime() <= crate::data_conversion::time::LATEST_FILETIME,
        settings.scheduled_night.value().wf(),
        settings::sun_frame(settings.sunset_to_sunrise).wf(),
    ensures
        spec_reg_write(state, settings, elapsed_nanos, now) matches Ok((Some(bytes), _))
            ==> spec_settings(bytes, strictness) == Ok::<RawNightLightSettings, ParseError>(
            settings::settings_of(
                settings::next_epoch_secs(now.secs, settings.prologue_epoch_secs),
                settings.schedule_active.value(),
                settings.schedule_type.value() is Explicit,
                settings.scheduled_night.value().start,
                settings.scheduled_night.value().end,
                settings.night_color_temp.value(),
                settings::spec_sunset_to_sunrise(
                    settings::sun_frame(settings.sunset_to_sunrise).start,
                    settings::sun_frame(settings.sunset_to_sunrise).end,
                ),
                settings.night_preview_active.value(),
            ),
        ),
        spec_reg_write(state, settings, elapsed_nanos, now) matches Ok((_, Some(bytes)))
            ==> spec_state(bytes, strictness) == Ok::<RawNightLightState, ParseError>(
            state::state_of(
                settings::next_epoch_secs(now.secs, state.prologue_epoch_secs),
                state.active.value(),
                true,
                now.filetime() as i64,
            ),
        ),
{
    if write_timestamps_fit(settings.prologue_epoch_secs, now) {
        settings::lemma_settings_roundtrip(settings, now, strictness);
    }
    if write_timestamps_fit(state.prologue_epoch_secs, now) {
        state::lemma_state_roundtrip(manual_state(state), now, strictness);
    }
}

/// Errors of the Night Light operations.
#[derive(Debug)]
pub enum Error {
    /// Error interacting with the registry, e.g., because of a non-existent registry value. If
    /// the user never used Night Light in their OS installation, they should be advised to
    /// change something in the official settings to create the registry values and try again.
    IoError(std::io::Error),
    /// Couldn't parse a byte stream.
    ParseError(ParseError),
    /// Couldn't serialize the data from an instance into a byte stream.
    DataError(DataError),
}

impl From<std::io::Error> for Error {
    fn from(error: std::io::Error) -> (r: Self) {
        Error::IoError(error)
    }
}

impl FromSpecImpl<std::io::Error> for Error {
    open spec fn obeys_from_spec() -> bool {
        true
    }

    open spec fn from_spec(v: std::io::Error) -> Self {
        Error::IoError(v)
    }
}

impl From<ParseError> for Error {
    fn from(error: ParseError) -> (r: Self) {
        Error::ParseError(error)
    }
}

impl FromSpecImpl<ParseError> for Error {
    open spec fn obeys_from_spec() -> bool {
        true
    }

    open spec fn from_spec(v: ParseError) -> Self {
        Error::ParseError(v)
    }
}

impl From<DataError> for Error {
    fn from(error: DataError) -> (r: Self) {
        Error::DataError(error)
    }
}

impl FromSpecImpl<DataError> for Error {
    open spec fn obeys_from_spec() -> bool {
        true
    }

    open spec fn from_spec(v: DataError) -> Self {
        Error::DataError(v)
    }
}

/// Why an instance's data can't be written.
#[derive(Clone, Copy, PartialEq, Eq, Structural, Debug)]
pub enum DataError {
    /// The object expired to enforce avoidance of race conditions.
    Expired,
    /// Changed properties don't harmonize with the condition of other properties.
    Irreconcilable(CompetingProps),
    /// Night preview is currently active, because of other software or earlier use of this
    /// crate. The user could, e.g., right now be dragging the color temperature slider in the
    /// official Night Light settings.
    NightPreviewInProgress,
    /// A timestamp to be written lies beyond what the registry values can hold (after the year
    /// 2106), because the clock of the system or a stored timestamp does.
    TimestampOutOfRange,
}

/// The properties whose changes compete with each other.
#[derive(Clone, Copy, PartialEq, Eq, Structural, Debug)]
pub enum CompetingProps {
    StateVsStateChangingSettings,
    StateVsNightPreview,
    StateChangingSettingsVsNightPreview,
}

/// The bytes of the state and settings registry values.
#[derive(Clone, Debug)]
pub struct NightLightBytes {
    pub state: Vec<u8>,
    pub settings: Vec<u8>,
}

impl NightLightBytes {
    /// The bytes of the registry value identified by `reg_value_id`.
    pub fn bytes_of_value(&self, reg_value_id: RegValueId) -> (r: &[u8])
        ensures
            r@ == match reg_value_id {
                RegValueId::State => self.state@,
                RegValueId::Settings => self.settings@,
            },
    {
        match reg_value_id {
            RegValueId::State => self.state.as_slice(),
            RegValueId::Settings => self.settings.as_slice(),
        }
    }
}

/// The Night Light registry values.
#[derive(Clone, Copy, PartialEq, Eq, Structural, Debug)]
pub enum RegValueId {
    State,
    Settings,
}

} // verus!
