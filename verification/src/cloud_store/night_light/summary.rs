//! The summary of a Night Light instance, as a table for people.

use convert_case::Casing;
use vstd::prelude::*;
use vstd::string::StringExecFns;

use super::time::spec_format_clock_time;
use super::{spec_effective_schedule_type, NightLight, ScheduleType, TransitionCause};
use crate::data_conversion::format::push_char;
use crate::data_conversion::time::{HECTONANOS_1601_TO_1970, HECTONANOS_PER_SEC};

verus! {

/// What `convert_case` makes of `s` with `Case::Lower`: its words, split at case boundaries,
/// in lower case and separated by spaces.
pub uninterp spec fn lower_case(s: Seq<char>) -> Seq<char>;

/// `s.to_case(Case::Lower)` of `convert_case`: `s` in lower case, its words separated by spaces.
/// The result is named, as a function of `s` alone.
#[verifier::external_body]
fn to_lower_case(s: &str) -> (r: String)
    ensures
        r@ == lower_case(s@),
{
    s.to_case(convert_case::Case::Lower)
}

/// The name of a transition cause, as its variant is written.
pub open spec fn transition_cause_name(cause: TransitionCause) -> Seq<char> {
    match cause {
        TransitionCause::Manual => "Manual"@,
        TransitionCause::Schedule => "Schedule"@,
    }
}

fn transition_cause_str(cause: TransitionCause) -> (r: &'static str)
    ensures
        r@ == transition_cause_name(cause),
{
    match cause {
        TransitionCause::Manual => "Manual",
        TransitionCause::Schedule => "Schedule",
    }
}

/// The name of a schedule type, as its variant is written.
pub open spec fn schedule_type_name(schedule_type: ScheduleType) -> Seq<char> {
    match schedule_type {
        ScheduleType::SunsetToSunrise => "SunsetToSunrise"@,
        ScheduleType::Explicit => "Explicit"@,
    }
}

fn schedule_type_str(schedule_type: ScheduleType) -> (r: &'static str)
    ensures
        r@ == schedule_type_name(schedule_type),
{
    match schedule_type {
        ScheduleType::SunsetToSunrise => "SunsetToSunrise",
        ScheduleType::Explicit => "Explicit",
    }
}

/// `yes` or `no`.
pub open spec fn yes_no(flag: bool) -> Seq<char> {
    if flag {
        "yes"@
    } else {
        "no"@
    }
}

fn yes_no_string(flag: bool) -> (r: String)
    ensures
        r@ == yes_no(flag),
{
    String::from_str(if flag { "yes" } else { "no" })
}

/// `s` in parentheses if `flag` is set.
pub open spec fn parenthesized_if(flag: bool, s: Seq<char>) -> Seq<char> {
    if flag {
        seq!['('] + s + seq![')']
    } else {
        s
    }
}

fn parenthesize_if(flag: bool, s: String) -> (r: String)
    ensures
        r@ == parenthesized_if(flag, s@),
{
    if flag {
        let mut r = String::new();
        push_char(&mut r, '(');
        r.append(s.as_str());
        push_char(&mut r, ')');
        r
    } else {
        s
    }
}

/// The decimal digits of a number.
pub open spec fn decimal_chars(v: nat) -> Seq<char>
    decreases v,
{
    if v < 10 {
        seq![((48 + v) as u8) as char]
    } else {
        decimal_chars(v / 10) + seq![((48 + v % 10) as u8) as char]
    }
}

fn push_decimal(s: &mut String, v: u16)
    ensures
        final(s)@ == old(s)@ + decimal_chars(v as nat),
    decreases v,
{
    if v >= 10 {
        push_decimal(s, v / 10);
    }
    push_char(s, (48 + (v % 10) as u8) as char);
    assert(final(s)@ =~= old(s)@ + decimal_chars(v as nat));
}

/// A clock time frame as text, like [`super::ClockTimeFrame::format()`].
pub open spec fn frame_text(frame: super::ClockTimeFrame, use_12_hour_clock: bool) -> Seq<char> {
    spec_format_clock_time(frame.start, use_12_hour_clock) + seq!['-'] + spec_format_clock_time(
        frame.end,
        use_12_hour_clock,
    )
}

/// A row of a table, by its text.
pub open spec fn row_view(row: Option<(&str, String)>) -> Option<(Seq<char>, Seq<char>)> {
    match row {
        Some((name, value)) => Some((name@, value@)),
        None => None,
    }
}

/// The rows of the summary of an instance, given the warmth and the modification time as text.
pub open spec fn summary_row_views(
    night_light: NightLight,
    warmth_text: Seq<char>,
    modified_text: Seq<char>,
) -> Seq<Option<(Seq<char>, Seq<char>)>> {
    let state = night_light.raw_state();
    let settings = night_light.raw_settings();
    let effective = spec_effective_schedule_type(
        settings.schedule_type.value(),
        night_light.spec_sunset_to_sunrise_possible(),
    );
    let twelve = night_light.spec_uses_12_hour_clock();
    seq![
        Some(("Active"@, yes_no(state.active.value()))),
        Some(("Transition Cause"@, lower_case(transition_cause_name(state.transition_cause)))),
        None,
        Some(("Warmth"@, warmth_text)),
        Some(
            (
                "Kelvin"@,
                match settings.night_color_temp.value() {
                    Some(temp) => decimal_chars(temp as nat),
                    None => "default (should be 4000)"@,
                },
            ),
        ),
        Some(("Preview Active"@, yes_no(settings.night_preview_active.value()))),
        None,
        Some(("Schedule Active"@, yes_no(settings.schedule_active.value()))),
        Some(
            (
                "Schedule Type (Effective)"@,
                match effective {
                    Some(schedule_type) => lower_case(schedule_type_name(schedule_type)),
                    None => "N/A"@,
                },
            ),
        ),
        Some(
            (
                "Sunset to Sunrise"@,
                parenthesized_if(
                    effective == Some(ScheduleType::Explicit),
                    match settings.sunset_to_sunrise {
                        Some(frame) => frame_text(frame, twelve),
                        None => "N/A"@,
                    },
                ),
            ),
        ),
        Some(
            (
                "Explicit Night"@,
                parenthesized_if(
                    effective == Some(ScheduleType::SunsetToSunrise),
                    frame_text(settings.scheduled_night.value(), twelve),
                ),
            ),
        ),
        None,
        Some(("Modified (Latest Possible)"@, modified_text)),
    ]
}

impl NightLight {
    /// The later of the state's modification time and the settings' timestamp, as a `FILETIME`:
    /// the latest possible time of the last modification.
    pub fn latest_possible_modified_filetime(&self) -> (r: i64)
        ensures
            r == if self.raw_state().modified_filetime >= self.raw_settings().prologue_epoch_secs
                * HECTONANOS_PER_SEC + HECTONANOS_1601_TO_1970 {
                self.raw_state().modified_filetime as int
            } else {
                self.raw_settings().prologue_epoch_secs * HECTONANOS_PER_SEC
                    + HECTONANOS_1601_TO_1970
            },
    {
        let settings_filetime = self.settings().prologue_epoch_secs as i64 * HECTONANOS_PER_SEC
            + HECTONANOS_1601_TO_1970;
        let state_filetime = self.state_modified_filetime();
        if state_filetime >= settings_filetime {
            state_filetime
        } else {
            settings_filetime
        }
    }

    /// The rows of the summary table: the state, the color temperature and the schedule, with
    /// the schedule that is not in effect in parentheses. `warmth_text` and `modified_text` are
    /// the warmth and the latest possible modification time as text.
    pub fn summary_rows(&self, warmth_text: String, modified_text: String) -> (r: Vec<
        Option<(&'static str, String)>,
    >)
        ensures
            r@.map_values(|row: Option<(&'static str, String)>| row_view(row))
                == summary_row_views(*self, warmth_text@, modified_text@),
    {
        let use_12_hour_clock = self.uses_12_hour_clock();
        let effective = self.effective_schedule_type();

        let kelvin = match self.night_color_temp() {
            Some(temp) => {
                let mut s = String::new();
                push_decimal(&mut s, temp);
                s
            },
            None => String::from_str("default (should be 4000)"),
        };
        let schedule_type = match effective {
            Some(schedule_type) => to_lower_case(schedule_type_str(schedule_type)),
            None => String::from_str("N/A"),
        };
        let sunset_to_sunrise = match self.sunset_to_sunrise() {
            Some(frame) => frame.format(use_12_hour_clock),
            None => String::from_str("N/A"),
        };
        let explicit_is_effective = match effective {
            Some(ScheduleType::Explicit) => true,
            _ => false,
        };
        let sun_is_effective = match effective {
            Some(ScheduleType::SunsetToSunrise) => true,
            _ => false,
        };

        let rows = vec![
            Some(("Active", yes_no_string(self.active()))),
            Some(
                ("Transition Cause", to_lower_case(transition_cause_str(self.transition_cause()))),
            ),
            None,
            Some(("Warmth", warmth_text)),
            Some(("Kelvin", kelvin)),
            Some(("Preview Active", yes_no_string(self.night_preview_active()))),
            None,
            Some(("Schedule Active", yes_no_string(self.schedule_active()))),
            Some(("Schedule Type (Effective)", schedule_type)),
            Some(("Sunset to Sunrise", parenthesize_if(explicit_is_effective, sunset_to_sunrise))),
            Some(
                (
                    "Explicit Night",
                    parenthesize_if(
                        sun_is_effective,
                        self.scheduled_night().format(use_12_hour_clock),
                    ),
                ),
            ),
            None,
            Some(("Modified (Latest Possible)", modified_text)),
        ];
        assert(rows@.map_values(|row: Option<(&'static str, String)>| row_view(row))
            =~= summary_row_views(*self, warmth_text@, modified_text@));
        rows
    }
}

} // verus!
