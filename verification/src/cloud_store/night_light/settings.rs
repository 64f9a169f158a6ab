//! The settings registry value of Night Light.

use vstd::prelude::*;
use vstd::seq_lib::lemma_concat_associative;
use vstd::std_specs::cmp::PartialEqSpecImpl;

use super::time::{
    clock_time_bytes, lemma_clock_time_ext, lemma_clock_time_parts, lemma_clock_time_read_after_push,
    spec_clock_time, ClockTime, ClockTimeFrame,
};
use crate::cloud_store::prologue::{
    read_trailer, spec_prologue, spec_prologue_bytes, spec_trailer, spec_zero_or_lenient,
    assert_zero_or_lenient, lemma_prologue_roundtrip, lemma_prologue_strict_implies_lenient,
    lemma_trailer_of_zeros, CloudStoreValuePrologue,
};
use crate::data_conversion::byte_seq::{
    has_prefix_at, lemma_const_after_push, lemma_no_const_before, lemma_zero_after_push,
    lemma_zigzag_vlq_read_after_push, spec_const, spec_zero, spec_zigzag_vlq, zigzag_vlq_bytes, ByteSeq,
    ParseError, Parsed,
};
use crate::data_conversion::time::{
    epoch_duration_in_range, epoch_duration_to_epoch_secs, now_as_epoch_duration, EpochDuration,
};
use crate::data_conversion::{Strictness, TrackedValue};

verus! {

broadcast use {lemma_clock_time_parts, lemma_clock_time_ext};

/// The contents of the settings registry value.
#[derive(PartialEq, Debug)]
pub struct RawNightLightSettings {
    pub prologue_epoch_secs: u32,
    pub schedule_active: TrackedValue<bool>,
    pub schedule_type: TrackedValue<ScheduleType>,
    pub scheduled_night: TrackedValue<ClockTimeFrame>,
    pub night_color_temp: TrackedValue<Option<u16>>,
    pub sunset_to_sunrise: Option<ClockTimeFrame>,
    pub night_preview_active: TrackedValue<bool>,
}

/// The type of the schedule.
#[derive(Clone, Copy, Debug)]
pub enum ScheduleType {
    /// Based on the user's location.
    SunsetToSunrise,
    /// Explicitly chosen clock times. Also used as the fallback when the other variant is
    /// unavailable because location services are turned off.
    Explicit,
}

impl PartialEq for ScheduleType {
    fn eq(&self, other: &Self) -> (r: bool) {
        match (self, other) {
            (ScheduleType::SunsetToSunrise, ScheduleType::SunsetToSunrise) => true,
            (ScheduleType::Explicit, ScheduleType::Explicit) => true,
            _ => false,
        }
    }
}

impl PartialEqSpecImpl for ScheduleType {
    open spec fn obeys_eq_spec() -> bool {
        true
    }

    open spec fn eq_spec(&self, other: &Self) -> bool {
        *self == *other
    }
}

// ---------------------------------------------------------------------------------------------
// Parsing.
// ---------------------------------------------------------------------------------------------

/// A clock time after the bytes `tag`. Lenient parsing takes a missing tag for midnight.
pub open spec fn spec_tagged_clock_time(
    s: Seq<u8>,
    i: nat,
    tag: Seq<u8>,
    strictness: Strictness,
) -> Parsed<ClockTime> {
    let r = match spec_const(s, i, tag) {
        Ok((_, j)) => spec_clock_time(s, j),
        Err(e) => Err(e),
    };
    match r {
        Ok(x) => Ok(x),
        Err(e) => if strictness is Lenient && e is ExpectedConst {
            Ok((ClockTime::spec_new(0, 0), i))
        } else {
            Err(e)
        },
    }
}

/// An optional night color temperature after the bytes `cf 28`, as a zigzag-encoded VLQ.
pub open spec fn spec_night_color_temp(s: Seq<u8>, i: nat) -> Parsed<Option<u16>> {
    if has_prefix_at(s, i as int, seq![0xcfu8, 0x28u8]) {
        match spec_zigzag_vlq(s, i + 2) {
            Err(e) => Err(e),
            Ok((v, j)) => if 0 <= v <= u16::MAX {
                Ok((Some(v as u16), j))
            } else {
                Err(ParseError::ValueNotInRange)
            },
        }
    } else {
        Ok((None, i))
    }
}

/// The night preview flag: `c2 46 01` if active. Lenient parsing takes the signature without the
/// `01` for inactive.
pub open spec fn spec_night_preview(s: Seq<u8>, i: nat, strictness: Strictness) -> Parsed<bool> {
    if has_prefix_at(s, i as int, seq![0xc2u8, 0x46u8]) {
        if has_prefix_at(s, i + 2 as int, seq![0x01u8]) {
            Ok((true, i + 3))
        } else if strictness is Lenient {
            Ok((false, i + 2))
        } else {
            Err(ParseError::ExpectedConst((i + 2) as usize))
        }
    } else {
        Ok((false, i))
    }
}

/// The sunset-to-sunrise frame: none if both clock times are midnight.
pub open spec fn spec_sunset_to_sunrise(sunset: ClockTime, sunrise: ClockTime) -> Option<
    ClockTimeFrame,
> {
    if sunset.spec_hour() == 0 && sunset.spec_minute() == 0 && sunrise.spec_hour() == 0
        && sunrise.spec_minute() == 0 {
        None
    } else {
        Some(ClockTimeFrame { start: sunset, end: sunrise })
    }
}

/// The parsed settings.
pub open spec fn settings_of(
    prologue_epoch_secs: u32,
    schedule_active: bool,
    explicit: bool,
    start: ClockTime,
    end: ClockTime,
    night_color_temp: Option<u16>,
    sunset_to_sunrise: Option<ClockTimeFrame>,
    night_preview_active: bool,
) -> RawNightLightSettings {
    RawNightLightSettings {
        prologue_epoch_secs,
        schedule_active: TrackedValue::spec_new(schedule_active),
        schedule_type: TrackedValue::spec_new(
            if explicit {
                ScheduleType::Explicit
            } else {
                ScheduleType::SunsetToSunrise
            },
        ),
        scheduled_night: TrackedValue::spec_new(ClockTimeFrame { start, end }),
        night_color_temp: TrackedValue::spec_new(night_color_temp),
        sunset_to_sunrise,
        night_preview_active: TrackedValue::spec_new(night_preview_active),
    }
}

/// Parsing the settings registry value.
pub open spec fn spec_settings(s: Seq<u8>, strictness: Strictness) -> Result<
    RawNightLightSettings,
    ParseError,
> {
    match spec_prologue(s, 0, strictness) {
        Err(e) => Err(e),
        Ok((p, i)) => match p.epoch_secs {
            None => Err(ParseError::InconsistentData),
            Some(epoch_secs) => if p.num_body_bytes is None && strictness is Strict {
                Err(ParseError::InconsistentData)
            } else {
                spec_settings_body(s, i, strictness, epoch_secs)
            },
        },
    }
}

/// Parsing the body of the settings registry value, from position `i`.
#[verifier::opaque]
pub open spec fn spec_settings_body(
    s: Seq<u8>,
    i: nat,
    strictness: Strictness,
    epoch_secs: u32,
) -> Result<RawNightLightSettings, ParseError> {
    match spec_zero_or_lenient(s, i, strictness) {
        Err(e) => Err(e),
        Ok((_, i1)) => {
            let schedule_active = has_prefix_at(s, i1 as int, seq![0x02u8, 0x01u8]);
            let i2 = if schedule_active {
                i1 + 2
            } else {
                i1
            };
            let explicit = has_prefix_at(s, i2 as int, seq![0xc2u8, 0x0au8, 0x00u8]);
            let i3 = if explicit {
                i2 + 3
            } else {
                i2
            };
            match spec_tagged_clock_time(s, i3, seq![0xcau8, 0x14u8], strictness) {
                Err(e) => Err(e),
                Ok((start, i4)) => match spec_zero_or_lenient(s, i4, strictness) {
                    Err(e) => Err(e),
                    Ok((_, i5)) => match spec_tagged_clock_time(
                        s,
                        i5,
                        seq![0xcau8, 0x1eu8],
                        strictness,
                    ) {
                        Err(e) => Err(e),
                        Ok((end, i6)) => spec_settings_rest(
                            s,
                            i6,
                            strictness,
                            epoch_secs,
                            schedule_active,
                            explicit,
                            start,
                            end,
                        ),
                    },
                },
            }
        },
    }
}

/// Parsing the part of the body that follows the explicit schedule, from position `i`.
#[verifier::opaque]
pub open spec fn spec_settings_rest(
    s: Seq<u8>,
    i: nat,
    strictness: Strictness,
    epoch_secs: u32,
    schedule_active: bool,
    explicit: bool,
    start: ClockTime,
    end: ClockTime,
) -> Result<RawNightLightSettings, ParseError> {
    match spec_zero_or_lenient(s, i, strictness) {
        Err(e) => Err(e),
        Ok((_, i1)) => match spec_night_color_temp(s, i1) {
            Err(e) => Err(e),
            Ok((night_color_temp, i2)) => match spec_tagged_clock_time(
                s,
                i2,
                seq![0xcau8, 0x32u8],
                strictness,
            ) {
                Err(e) => Err(e),
                Ok((sunset, i3)) => match spec_zero_or_lenient(s, i3, strictness) {
                    Err(e) => Err(e),
                    Ok((_, i4)) => match spec_tagged_clock_time(
                        s,
                        i4,
                        seq![0xcau8, 0x3cu8],
                        strictness,
                    ) {
                        Err(e) => Err(e),
                        Ok((sunrise, i5)) => match spec_zero_or_lenient(s, i5, strictness) {
                            Err(e) => Err(e),
                            Ok((_, i6)) => match spec_night_preview(s, i6, strictness) {
                                Err(e) => Err(e),
                                Ok((night_preview_active, i7)) => match spec_trailer(
                                    s,
                                    i7,
                                    4,
                                    strictness,
                                ) {
                                    Err(e) => Err(e),
                                    Ok(_) => Ok(
                                        settings_of(
                                            epoch_secs,
                                            schedule_active,
                                            explicit,
                                            start,
                                            end,
                                            night_color_temp,
                                            spec_sunset_to_sunrise(sunset, sunrise),
                                            night_preview_active,
                                        ),
                                    ),
                                },
                            },
                        },
                    },
                },
            },
        },
    }
}

// ---------------------------------------------------------------------------------------------
// Serialization.
// ---------------------------------------------------------------------------------------------

/// The start of the body bytes: the zero separator and the schedule flags.
pub open spec fn settings_head_bytes(schedule_active: bool, schedule_type: ScheduleType) -> Seq<u8> {
    seq![0x00u8] + (if schedule_active {
        seq![0x02u8, 0x01u8]
    } else {
        Seq::empty()
    }) + (if schedule_type is Explicit {
        seq![0xc2u8, 0x0au8, 0x00u8]
    } else {
        Seq::empty()
    })
}

/// The bytes of a frame, its start after the bytes `start_tag` and its end after `end_tag`,
/// each followed by a zero separator.
pub open spec fn frame_bytes(frame: ClockTimeFrame, start_tag: u8, end_tag: u8) -> Seq<u8> {
    seq![0xcau8, start_tag] + clock_time_bytes(frame.start) + seq![0x00u8, 0xcau8, end_tag]
        + clock_time_bytes(frame.end) + seq![0x00u8]
}

/// The bytes of an optional night color temperature.
pub open spec fn night_color_temp_bytes(night_color_temp: Option<u16>) -> Seq<u8> {
    match night_color_temp {
        Some(temp) => seq![0xcfu8, 0x28u8] + zigzag_vlq_bytes(temp as int),
        None => Seq::empty(),
    }
}

/// The end of the body bytes: the preview flag and the trailing zeros.
pub open spec fn settings_tail_bytes(night_preview_active: bool) -> Seq<u8> {
    (if night_preview_active {
        seq![0xc2u8, 0x46u8, 0x01u8]
    } else {
        Seq::empty()
    }) + seq![0x00u8, 0x00u8, 0x00u8, 0x00u8]
}

/// The frame written for the sunset-to-sunrise times: midnight to midnight if there are none.
pub open spec fn sun_frame(sunset_to_sunrise: Option<ClockTimeFrame>) -> ClockTimeFrame {
    match sunset_to_sunrise {
        Some(frame) => frame,
        None => ClockTimeFrame { start: ClockTime::spec_new(0, 0), end: ClockTime::spec_new(0, 0) },
    }
}

/// The body bytes of settings.
pub open spec fn spec_settings_body_bytes(x: RawNightLightSettings) -> Seq<u8> {
    settings_head_bytes(x.schedule_active.value(), x.schedule_type.value()) + frame_bytes(
        x.scheduled_night.value(),
        0x14,
        0x1e,
    ) + night_color_temp_bytes(x.night_color_temp.value()) + frame_bytes(
        sun_frame(x.sunset_to_sunrise),
        0x32,
        0x3c,
    ) + settings_tail_bytes(x.night_preview_active.value())
}

/// The timestamp written with a change: the current time, but at least two seconds after the
/// stored timestamp.
pub open spec fn next_epoch_secs(now_secs: u64, prologue_epoch_secs: u32) -> u32 {
    if now_secs >= prologue_epoch_secs + 2 {
        now_secs as u32
    } else {
        (prologue_epoch_secs + 2) as u32
    }
}

/// Whether the timestamps written with a change at the time `now` can be stated in the format:
/// `now` (in 32-bit epoch seconds and as a `FILETIME`), and two seconds after the stored one.
pub open spec fn write_timestamps_fit(prologue_epoch_secs: u32, now: EpochDuration) -> bool {
    &&& now.in_range()
    &&& prologue_epoch_secs + 2 <= u32::MAX
}

/// The bytes of settings, written at the time `now`.
pub open spec fn spec_settings_bytes(x: RawNightLightSettings, now: EpochDuration) -> Seq<u8> {
    let body = spec_settings_body_bytes(x);
    spec_prologue_bytes(
        CloudStoreValuePrologue {
            epoch_secs: Some(next_epoch_secs(now.secs, x.prologue_epoch_secs)),
            num_body_bytes: Some(body.len() as u32),
        },
    ) + body
}

// ---------------------------------------------------------------------------------------------
// Implementation.
// ---------------------------------------------------------------------------------------------

/// Moves past the bytes `tag` and a clock time. Lenient parsing takes a missing tag for
/// midnight.
fn read_tagged_clock_time(byte_seq: &mut ByteSeq, tag: &[u8], strictness: Strictness) -> (r:
    Result<ClockTime, ParseError>)
    ensures
        final(byte_seq).data() == old(byte_seq).data(),
        final(byte_seq).pos() <= final(byte_seq).data().len(),
        spec_tagged_clock_time(old(byte_seq).data(), old(byte_seq).pos(), tag@, strictness)
            == match r {
            Ok(t) => Ok((t, final(byte_seq).pos())),
            Err(e) => Err(e),
        },
{
    proof {
        use_type_invariant(&*byte_seq);
    }
    let result = match byte_seq.assert_const(tag) {
        Ok(()) => byte_seq.read_clock_time(),
        Err(e) => Err(e),
    };
    match result {
        Ok(t) => Ok(t),
        Err(error) => {
            if strictness.is_lenient() {
                match error {
                    ParseError::ExpectedConst(_) => Ok(ClockTime::midnight()),
                    _ => Err(error),
                }
            } else {
                Err(error)
            }
        },
    }
}

/// Moves past an optional night color temperature.
fn read_night_color_temp(byte_seq: &mut ByteSeq) -> (r: Result<Option<u16>, ParseError>)
    ensures
        final(byte_seq).data() == old(byte_seq).data(),
        final(byte_seq).pos() <= final(byte_seq).data().len(),
        spec_night_color_temp(old(byte_seq).data(), old(byte_seq).pos()) == match r {
            Ok(v) => Ok((v, final(byte_seq).pos())),
            Err(e) => Err(e),
        },
{
    proof {
        use_type_invariant(&*byte_seq);
    }
    assert([0xcfu8, 0x28u8]@ =~= seq![0xcfu8, 0x28u8]);
    if byte_seq.assert_const(&[0xcf, 0x28]).is_ok() {
        let value = byte_seq.read_zigzag_vlq_64()?;
        if value < 0 || value > u16::MAX as i64 {
            return Err(ParseError::ValueNotInRange);
        }
        Ok(Some(value as u16))
    } else {
        Ok(None)
    }
}

/// Moves past the night preview flag.
fn read_night_preview(byte_seq: &mut ByteSeq, strictness: Strictness) -> (r: Result<
    bool,
    ParseError,
>)
    ensures
        final(byte_seq).data() == old(byte_seq).data(),
        final(byte_seq).pos() <= final(byte_seq).data().len(),
        spec_night_preview(old(byte_seq).data(), old(byte_seq).pos(), strictness) == match r {
            Ok(v) => Ok((v, final(byte_seq).pos())),
            Err(e) => Err(e),
        },
{
    proof {
        use_type_invariant(&*byte_seq);
    }
    assert([0xc2u8, 0x46u8]@ =~= seq![0xc2u8, 0x46u8]);
    assert([0x01u8]@ =~= seq![0x01u8]);
    if byte_seq.assert_const(&[0xc2, 0x46]).is_ok() {
        match byte_seq.assert_const(&[0x01]) {
            Ok(()) => Ok(true),
            Err(error) => if strictness.is_lenient() {
                Ok(false)
            } else {
                Err(error)
            },
        }
    } else {
        Ok(false)
    }
}

/// Reads the part of the body that follows the explicit schedule.
fn read_settings_rest(
    byte_seq: &mut ByteSeq,
    strictness: Strictness,
    epoch_secs: u32,
    schedule_active: bool,
    explicit: bool,
    start: ClockTime,
    end: ClockTime,
) -> (r: Result<RawNightLightSettings, ParseError>)
    ensures
        r == spec_settings_rest(
            old(byte_seq).data(),
            old(byte_seq).pos(),
            strictness,
            epoch_secs,
            schedule_active,
            explicit,
            start,
            end,
        ),
{
    proof {
        use_type_invariant(&*byte_seq);
    }
    reveal(spec_settings_rest);
    assert([0xcau8, 0x32u8]@ =~= seq![0xcau8, 0x32u8]);
    assert([0xcau8, 0x3cu8]@ =~= seq![0xcau8, 0x3cu8]);
    assert_zero_or_lenient(byte_seq, strictness)?;
    let night_color_temp = read_night_color_temp(byte_seq)?;
    let sunset_time = read_tagged_clock_time(byte_seq, &[0xca, 0x32], strictness)?;
    assert_zero_or_lenient(byte_seq, strictness)?;
    let sunrise_time = read_tagged_clock_time(byte_seq, &[0xca, 0x3c], strictness)?;
    let sunset_to_sunrise = if sunset_time.is_midnight() && sunrise_time.is_midnight() {
        None
    } else {
        Some(ClockTimeFrame { start: sunset_time, end: sunrise_time })
    };
    assert_zero_or_lenient(byte_seq, strictness)?;
    let night_preview_active = read_night_preview(byte_seq, strictness)?;
    read_trailer(byte_seq, 4, strictness)?;

    Ok(RawNightLightSettings {
        prologue_epoch_secs: epoch_secs,
        schedule_active: TrackedValue::new(schedule_active),
        schedule_type: TrackedValue::new(
            if explicit {
                ScheduleType::Explicit
            } else {
                ScheduleType::SunsetToSunrise
            },
        ),
        scheduled_night: TrackedValue::new(ClockTimeFrame { start, end }),
        night_color_temp: TrackedValue::new(night_color_temp),
        sunset_to_sunrise,
        night_preview_active: TrackedValue::new(night_preview_active),
    })
}

/// Reads the body of the settings registry value.
fn read_settings_body(byte_seq: &mut ByteSeq, strictness: Strictness, epoch_secs: u32) -> (r:
    Result<RawNightLightSettings, ParseError>)
    ensures
        r == spec_settings_body(old(byte_seq).data(), old(byte_seq).pos(), strictness, epoch_secs),
{
    proof {
        use_type_invariant(&*byte_seq);
    }
    reveal(spec_settings_body);
    assert([0x02u8, 0x01u8]@ =~= seq![0x02u8, 0x01u8]);
    assert([0xc2u8, 0x0au8, 0x00u8]@ =~= seq![0xc2u8, 0x0au8, 0x00u8]);
    assert([0xcau8, 0x14u8]@ =~= seq![0xcau8, 0x14u8]);
    assert([0xcau8, 0x1eu8]@ =~= seq![0xcau8, 0x1eu8]);
    assert_zero_or_lenient(byte_seq, strictness)?;
    let schedule_active = byte_seq.assert_const(&[0x02, 0x01]).is_ok();
    let explicit = byte_seq.assert_const(&[0xc2, 0x0a, 0x00]).is_ok();
    let start = read_tagged_clock_time(byte_seq, &[0xca, 0x14], strictness)?;
    assert_zero_or_lenient(byte_seq, strictness)?;
    let end = read_tagged_clock_time(byte_seq, &[0xca, 0x1e], strictness)?;
    read_settings_rest(byte_seq, strictness, epoch_secs, schedule_active, explicit, start, end)
}

impl RawNightLightSettings {
    /// Parses the settings registry value.
    pub fn from_bytes(bytes: Vec<u8>, strictness: Strictness) -> (r: Result<Self, ParseError>)
        ensures
            r == spec_settings(bytes@, strictness),
    {
        let mut byte_seq = ByteSeq::from_bytes(bytes);

        let prologue = CloudStoreValuePrologue::from_byte_seq(&mut byte_seq, strictness)?;
        let prologue_epoch_secs = match prologue.epoch_secs {
            Some(epoch_secs) => epoch_secs,
            None => return Err(ParseError::InconsistentData),
        };
        if prologue.num_body_bytes.is_none() && strictness.is_strict() {
            return Err(ParseError::InconsistentData);
        }
        read_settings_body(&mut byte_seq, strictness, prologue_epoch_secs)
    }

    /// The bytes of the settings, to be written at the time `now`. The timestamp of the value
    /// becomes `now`, but at least two seconds more than the stored one, so that Windows doesn't
    /// revert the change.
    pub fn to_bytes_at(&self, now: EpochDuration) -> (r: Vec<u8>)
        requires
            now.secs <= u32::MAX,
            self.prologue_epoch_secs + 2 <= u32::MAX,
        ensures
            r@ == spec_settings_bytes(*self, now),
    {
        let max_body_len: usize = 45;
        let mut body_byte_seq = ByteSeq::with_capacity(max_body_len);

        body_byte_seq.push_zero();
        if *self.schedule_active.get() {
            body_byte_seq.push_const(&[0x02, 0x01]);
        }
        if let ScheduleType::Explicit = *self.schedule_type.get() {
            body_byte_seq.push_const(&[0xc2, 0x0a, 0x00]);
        }
        let ghost head = body_byte_seq.data();
        assert(head =~= settings_head_bytes(self.schedule_active.value(), self.schedule_type.value()));

        let scheduled_night = *self.scheduled_night.get();
        push_frame(&mut body_byte_seq, scheduled_night, 0x14, 0x1e);
        let ghost with_night = body_byte_seq.data();

        if let Some(night_color_temp) = *self.night_color_temp.get() {
            body_byte_seq.push_const(&[0xcf, 0x28]);
            body_byte_seq.push_zigzag_vlq_64(night_color_temp as i64);
        }
        let ghost with_temp = body_byte_seq.data();
        assert(with_temp =~= with_night + night_color_temp_bytes(self.night_color_temp.value()));

        let sunset_to_sunrise = match self.sunset_to_sunrise {
            Some(frame) => frame,
            None => ClockTimeFrame::midnight_to_midnight(),
        };
        push_frame(&mut body_byte_seq, sunset_to_sunrise, 0x32, 0x3c);
        let ghost with_sun = body_byte_seq.data();

        if *self.night_preview_active.get() {
            body_byte_seq.push_const(&[0xc2, 0x46, 0x01]);
        }
        let mut k: usize = 0;
        let ghost before_trailer = body_byte_seq.data();
        while k < 4
            invariant
                k <= 4,
                body_byte_seq.data() == before_trailer + Seq::new(k as nat, |j: int| 0u8),
                body_byte_seq.pos() == 0,
            decreases 4 - k,
        {
            body_byte_seq.push_zero();
            k = k + 1;
            assert(Seq::new(k as nat, |j: int| 0u8) =~= Seq::new((k - 1) as nat, |j: int| 0u8).push(
                0u8,
            ));
        }
        assert(Seq::new(4, |j: int| 0u8) =~= seq![0x00u8, 0x00u8, 0x00u8, 0x00u8]);
        assert(body_byte_seq.data() =~= with_sun + settings_tail_bytes(
            self.night_preview_active.value(),
        ));
        assert(body_byte_seq.data() =~= spec_settings_body_bytes(*self));

        let now_secs = epoch_duration_to_epoch_secs(now);
        let min_secs = self.prologue_epoch_secs + 2;
        let epoch_secs = if now_secs >= min_secs {
            now_secs
        } else {
            min_secs
        };
        let body_len = body_byte_seq.len();
        assert(body_len <= 46) by {
            assert(spec_settings_body_bytes(*self).len() <= 46) by {
                lemma_settings_body_len(*self);
            }
        }
        let mut byte_seq = CloudStoreValuePrologue {
            epoch_secs: Some(epoch_secs),
            num_body_bytes: Some(body_len as u32),
        }.to_byte_seq(Some(max_body_len));
        byte_seq.extend(&body_byte_seq);
        byte_seq.into_bytes()
    }

    /// The bytes of the settings, to be written at the time `now` (see [`Self::to_bytes_at()`]).
    /// `None` if the timestamp to be written lies beyond what the format can hold (after the
    /// year 2106): because `now` does, or because the stored timestamp is too close to it.
    pub fn to_bytes_checked_at(&self, now: EpochDuration) -> (r: Option<Vec<u8>>)
        ensures
            (r is Some) == write_timestamps_fit(self.prologue_epoch_secs, now),
            r matches Some(bytes) ==> bytes@ == spec_settings_bytes(*self, now),
    {
        if epoch_duration_in_range(now) && self.prologue_epoch_secs <= u32::MAX - 2 {
            Some(self.to_bytes_at(now))
        } else {
            None
        }
    }

    /// The bytes of the settings, to be written now (see [`Self::to_bytes_checked_at()`]). Which
    /// time is used depends on the system clock.
    pub fn to_bytes(&self) -> (r: Option<Vec<u8>>)
        ensures
            exists|now: EpochDuration|
                {
                    &&& now.wf()
                    &&& (r is Some) == #[trigger] write_timestamps_fit(self.prologue_epoch_secs, now)
                    &&& r matches Some(bytes) ==> bytes@ == spec_settings_bytes(*self, now)
                },
    {
        self.to_bytes_checked_at(now_as_epoch_duration())
    }

    /// Settings for when the registry value doesn't exist, at the time `now`.
    pub fn lenient_fallback(now: EpochDuration) -> (r: Self)
        requires
            now.secs <= u32::MAX,
        ensures
            r == settings_of(
                now.secs as u32,
                false,
                false,
                ClockTime::spec_new(21, 0),
                ClockTime::spec_new(7, 0),
                Some(4000u16),
                None,
                false,
            ),
    {
        let start = match ClockTime::from_h_min(21, 0) {
            Some(t) => t,
            None => ClockTime::midnight(),
        };
        let end = match ClockTime::from_h_min(7, 0) {
            Some(t) => t,
            None => ClockTime::midnight(),
        };
        Self {
            prologue_epoch_secs: epoch_duration_to_epoch_secs(now),
            schedule_active: TrackedValue::new(false),
            schedule_type: TrackedValue::new(ScheduleType::SunsetToSunrise),
            // Default according to
            // <https://thegeekpage.com/how-to-set-a-schedule-to-turn-on-night-light-in-windows-11/>.
            scheduled_night: TrackedValue::new(ClockTimeFrame { start, end }),
            night_color_temp: TrackedValue::new(Some(4000u16)),
            sunset_to_sunrise: None,
            night_preview_active: TrackedValue::new(false),
        }
    }
}

proof fn lemma_frame_bytes_len(frame: ClockTimeFrame, start_tag: u8, end_tag: u8)
    ensures
        frame_bytes(frame, start_tag, end_tag).len() <= 14,
{
    assert(clock_time_bytes(frame.start).len() <= 4);
    assert(clock_time_bytes(frame.end).len() <= 4);
}

proof fn lemma_settings_body_len(x: RawNightLightSettings)
    ensures
        spec_settings_body_bytes(x).len() <= 46,
{
    lemma_frame_bytes_len(x.scheduled_night.value(), 0x14, 0x1e);
    lemma_frame_bytes_len(sun_frame(x.sunset_to_sunrise), 0x32, 0x3c);
    if let Some(temp) = x.night_color_temp.value() {
        lemma_zigzag_u16_len(temp);
    }
    assert(night_color_temp_bytes(x.night_color_temp.value()).len() <= 5);
    assert(settings_head_bytes(x.schedule_active.value(), x.schedule_type.value()).len() <= 6);
    assert(settings_tail_bytes(x.night_preview_active.value()).len() <= 7);
}

/// Pushes a frame, its start after `ca start_tag` and its end after `ca end_tag`, each followed
/// by a zero separator.
fn push_frame(byte_seq: &mut ByteSeq, frame: ClockTimeFrame, start_tag: u8, end_tag: u8)
    ensures
        final(byte_seq).data() == old(byte_seq).data() + frame_bytes(frame, start_tag, end_tag),
        final(byte_seq).pos() == old(byte_seq).pos(),
{
    byte_seq.push_const(&[0xca, start_tag]);
    byte_seq.push_clock_time(frame.start);
    byte_seq.push_zero();
    byte_seq.push_const(&[0xca, end_tag]);
    byte_seq.push_clock_time(frame.end);
    byte_seq.push_zero();
    assert(byte_seq.data() =~= old(byte_seq).data() + frame_bytes(frame, start_tag, end_tag));
}

/// A zigzag-encoded `u16` takes at most three bytes.
proof fn lemma_zigzag_u16_len(v: u16)
    ensures
        zigzag_vlq_bytes(v as int).len() <= 3,
{
    let u = 2 * (v as nat);
    assert(u < 0x20000);
    assert(u / 128 < 0x400);
    assert(u / 128 / 128 < 128);
    reveal_with_fuel(crate::data_conversion::byte_seq::vlq_bytes, 4);
}

// ---------------------------------------------------------------------------------------------
// Laws.
// ---------------------------------------------------------------------------------------------

/// A clock time pushed after the bytes `ca tag`, and followed by a zero byte, is read back.
proof fn lemma_tagged_clock_time_after_push(
    prefix: Seq<u8>,
    tag: u8,
    t: ClockTime,
    suffix: Seq<u8>,
    strictness: Strictness,
)
    requires
        t.wf(),
        suffix.len() > 0,
        suffix[0] == 0,
    ensures
        spec_tagged_clock_time(
            prefix + seq![0xcau8, tag] + clock_time_bytes(t) + suffix,
            prefix.len(),
            seq![0xcau8, tag],
            strictness,
        ) == Ok::<(ClockTime, nat), ParseError>(
            (t, prefix.len() + 2 + clock_time_bytes(t).len()),
        ),
{
    let c = seq![0xcau8, tag];
    let s = prefix + c + clock_time_bytes(t) + suffix;
    assert(s =~= prefix + c + (clock_time_bytes(t) + suffix));
    lemma_const_after_push(prefix, c, clock_time_bytes(t) + suffix);
    lemma_clock_time_read_after_push(prefix + c, t, suffix);
}

/// A night color temperature pushed before the bytes `ca ..` is read back.
proof fn lemma_night_color_temp_after_push(prefix: Seq<u8>, temp: Option<u16>, suffix: Seq<u8>)
    requires
        suffix.len() > 0,
        suffix[0] == 0xca,
    ensures
        spec_night_color_temp(prefix + night_color_temp_bytes(temp) + suffix, prefix.len())
            == Ok::<(Option<u16>, nat), ParseError>(
            (temp, prefix.len() + night_color_temp_bytes(temp).len()),
        ),
{
    let s = prefix + night_color_temp_bytes(temp) + suffix;
    let c = seq![0xcfu8, 0x28u8];
    match temp {
        Some(v) => {
            let z = zigzag_vlq_bytes(v as int);
            assert(s =~= prefix + c + (z + suffix));
            lemma_const_after_push(prefix, c, z + suffix);
            assert(s =~= (prefix + c) + zigzag_vlq_bytes((v as i64) as int) + suffix);
            lemma_zigzag_vlq_read_after_push(prefix + c, v as i64, suffix);
        },
        None => {
            assert(s =~= prefix + suffix);
            lemma_no_const_before(prefix, c, suffix);
        },
    }
}

/// A night preview flag pushed before a zero byte is read back.
proof fn lemma_night_preview_after_push(
    prefix: Seq<u8>,
    active: bool,
    suffix: Seq<u8>,
    strictness: Strictness,
)
    requires
        suffix.len() > 0,
        suffix[0] == 0,
    ensures
        spec_night_preview(prefix + preview_bytes(active) + suffix, prefix.len(), strictness)
            == Ok::<(bool, nat), ParseError>((active, prefix.len() + preview_bytes(active).len())),
{
    if active {
        let s = prefix + seq![0xc2u8, 0x46u8, 0x01u8] + suffix;
        assert(s =~= prefix + seq![0xc2u8, 0x46u8] + (seq![0x01u8] + suffix));
        lemma_const_after_push(prefix, seq![0xc2u8, 0x46u8], seq![0x01u8] + suffix);
        assert(s =~= (prefix + seq![0xc2u8, 0x46u8]) + seq![0x01u8] + suffix);
        lemma_const_after_push(prefix + seq![0xc2u8, 0x46u8], seq![0x01u8], suffix);
    } else {
        assert(prefix + Seq::<u8>::empty() + suffix =~= prefix + suffix);
        lemma_no_const_before(prefix, seq![0xc2u8, 0x46u8], suffix);
    }
}

/// The bytes that follow the explicit schedule in the body: the zero byte ending the schedule,
/// the night color temperature, the sunset-to-sunrise frame and the tail.
pub open spec fn settings_rest_bytes(
    night_color_temp: Option<u16>,
    sun: ClockTimeFrame,
    night_preview_active: bool,
) -> Seq<u8> {
    seq![0x00u8] + (night_color_temp_bytes(night_color_temp) + (seq![0xcau8, 0x32u8] + (
    clock_time_bytes(sun.start) + (seq![0x00u8] + (seq![0xcau8, 0x3cu8] + (clock_time_bytes(
        sun.end,
    ) + (seq![0x00u8] + (preview_bytes(night_preview_active) + seq![
        0x00u8,
        0x00u8,
        0x00u8,
        0x00u8,
    ]))))))))
}

/// The night preview flag as pushed.
pub open spec fn preview_bytes(night_preview_active: bool) -> Seq<u8> {
    if night_preview_active {
        seq![0xc2u8, 0x46u8, 0x01u8]
    } else {
        Seq::empty()
    }
}

/// Parsing the part of the body that follows the explicit schedule in steps: where each step
/// succeeds, so does the whole.
proof fn lemma_settings_rest_steps(
    s: Seq<u8>,
    i0: nat,
    i1: nat,
    i2: nat,
    i3: nat,
    i4: nat,
    i5: nat,
    i6: nat,
    i7: nat,
    strictness: Strictness,
    epoch_secs: u32,
    schedule_active: bool,
    explicit: bool,
    start: ClockTime,
    end: ClockTime,
    night_color_temp: Option<u16>,
    sun: ClockTimeFrame,
    night_preview_active: bool,
)
    requires
        spec_zero(s, i0) == Ok::<((), nat), ParseError>(((), i1)),
        spec_night_color_temp(s, i1) == Ok::<(Option<u16>, nat), ParseError>(
            (night_color_temp, i2),
        ),
        spec_tagged_clock_time(s, i2, seq![0xcau8, 0x32u8], strictness) == Ok::<
            (ClockTime, nat),
            ParseError,
        >((sun.start, i3)),
        spec_zero(s, i3) == Ok::<((), nat), ParseError>(((), i4)),
        spec_tagged_clock_time(s, i4, seq![0xcau8, 0x3cu8], strictness) == Ok::<
            (ClockTime, nat),
            ParseError,
        >((sun.end, i5)),
        spec_zero(s, i5) == Ok::<((), nat), ParseError>(((), i6)),
        spec_night_preview(s, i6, strictness) == Ok::<(bool, nat), ParseError>(
            (night_preview_active, i7),
        ),
        spec_trailer(s, i7, 4, strictness) is Ok,
    ensures
        spec_settings_rest(
            s,
            i0,
            strictness,
            epoch_secs,
            schedule_active,
            explicit,
            start,
            end,
        ) == Ok::<RawNightLightSettings, ParseError>(
            settings_of(
                epoch_secs,
                schedule_active,
                explicit,
                start,
                end,
                night_color_temp,
                spec_sunset_to_sunrise(sun.start, sun.end),
                night_preview_active,
            ),
        ),
{
    reveal(spec_settings_rest);
}

/// Parsing the bytes that follow the explicit schedule gives back what they were made of.
#[verifier::rlimit(60)]
proof fn lemma_settings_rest_roundtrip(
    prefix: Seq<u8>,
    epoch_secs: u32,
    schedule_active: bool,
    explicit: bool,
    start: ClockTime,
    end: ClockTime,
    night_color_temp: Option<u16>,
    sun: ClockTimeFrame,
    night_preview_active: bool,
    strictness: Strictness,
)
    requires
        sun.wf(),
    ensures
        spec_settings_rest(
            prefix + settings_rest_bytes(night_color_temp, sun, night_preview_active),
            prefix.len(),
            strictness,
            epoch_secs,
            schedule_active,
            explicit,
            start,
            end,
        ) == Ok::<RawNightLightSettings, ParseError>(
            settings_of(
                epoch_secs,
                schedule_active,
                explicit,
                start,
                end,
                night_color_temp,
                spec_sunset_to_sunrise(sun.start, sun.end),
                night_preview_active,
            ),
        ),
{
    let z: Seq<u8> = seq![0x00u8];
    let tb = night_color_temp_bytes(night_color_temp);
    let c1: Seq<u8> = seq![0xcau8, 0x32u8];
    let c2: Seq<u8> = seq![0xcau8, 0x3cu8];
    let b1 = clock_time_bytes(sun.start);
    let b2 = clock_time_bytes(sun.end);
    let w = preview_bytes(night_preview_active);
    let t: Seq<u8> = seq![0x00u8, 0x00u8, 0x00u8, 0x00u8];
    let r8 = w + t;
    let r7 = z + r8;
    let r6 = b2 + r7;
    let r5 = c2 + r6;
    let r4 = z + r5;
    let r3 = b1 + r4;
    let r2 = c1 + r3;
    let r1 = tb + r2;
    let s = prefix + settings_rest_bytes(night_color_temp, sun, night_preview_active);
    assert(s == prefix + (z + r1));
    let p1 = prefix + z;
    let p2 = p1 + tb;
    let p3 = p2 + c1 + b1;
    let p4 = p3 + z;
    let p5 = p4 + c2 + b2;
    let p6 = p5 + z;
    let p7 = p6 + w;
    assert(spec_zero(s, prefix.len()) == Ok::<((), nat), ParseError>(((), p1.len()))) by {
        lemma_concat_associative(prefix, z, r1);
        lemma_zero_after_push(prefix, r1);
    }
    assert(s == p1 + r1) by {
        lemma_concat_associative(prefix, z, r1);
    }
    assert(spec_night_color_temp(s, p1.len()) == Ok::<(Option<u16>, nat), ParseError>(
        (night_color_temp, p2.len()),
    )) by {
        lemma_concat_associative(p1, tb, r2);
        lemma_night_color_temp_after_push(p1, night_color_temp, r2);
    }
    assert(s == p2 + r2) by {
        lemma_concat_associative(p1, tb, r2);
    }
    assert(spec_tagged_clock_time(s, p2.len(), c1, strictness) == Ok::<(ClockTime, nat), ParseError>(
        (sun.start, p3.len()),
    )) by {
        lemma_concat_associative(p2, c1, r3);
        lemma_concat_associative(p2 + c1, b1, r4);
        lemma_tagged_clock_time_after_push(p2, 0x32, sun.start, r4, strictness);
    }
    assert(s == p3 + r4) by {
        lemma_concat_associative(p2, c1, r3);
        lemma_concat_associative(p2 + c1, b1, r4);
    }
    assert(spec_zero(s, p3.len()) == Ok::<((), nat), ParseError>(((), p4.len()))) by {
        lemma_concat_associative(p3, z, r5);
        lemma_zero_after_push(p3, r5);
    }
    assert(s == p4 + r5) by {
        lemma_concat_associative(p3, z, r5);
    }
    assert(spec_tagged_clock_time(s, p4.len(), c2, strictness) == Ok::<(ClockTime, nat), ParseError>(
        (sun.end, p5.len()),
    )) by {
        lemma_concat_associative(p4, c2, r6);
        lemma_concat_associative(p4 + c2, b2, r7);
        lemma_tagged_clock_time_after_push(p4, 0x3c, sun.end, r7, strictness);
    }
    assert(s == p5 + r7) by {
        lemma_concat_associative(p4, c2, r6);
        lemma_concat_associative(p4 + c2, b2, r7);
    }
    assert(spec_zero(s, p5.len()) == Ok::<((), nat), ParseError>(((), p6.len()))) by {
        lemma_concat_associative(p5, z, r8);
        lemma_zero_after_push(p5, r8);
    }
    assert(s == p6 + r8) by {
        lemma_concat_associative(p5, z, r8);
    }
    assert(spec_night_preview(s, p6.len(), strictness) == Ok::<(bool, nat), ParseError>(
        (night_preview_active, p7.len()),
    )) by {
        lemma_concat_associative(p6, w, t);
        lemma_night_preview_after_push(p6, night_preview_active, t, strictness);
    }
    assert(spec_trailer(s, p7.len(), 4, strictness) is Ok) by {
        lemma_concat_associative(p6, w, t);
        assert(t =~= Seq::new(4, |j: int| 0u8));
        lemma_trailer_of_zeros(p7, 4, strictness);
    }
    lemma_settings_rest_steps(
        s,
        prefix.len(),
        p1.len(),
        p2.len(),
        p3.len(),
        p4.len(),
        p5.len(),
        p6.len(),
        p7.len(),
        strictness,
        epoch_secs,
        schedule_active,
        explicit,
        start,
        end,
        night_color_temp,
        sun,
        night_preview_active,
    );
}

/// The body bytes, nested to the right, in the order in which they are parsed.
pub open spec fn settings_body_bytes_nested(
    schedule_active: bool,
    explicit: bool,
    night: ClockTimeFrame,
    night_color_temp: Option<u16>,
    sun: ClockTimeFrame,
    night_preview_active: bool,
) -> Seq<u8> {
    seq![0x00u8] + ((if schedule_active {
        seq![0x02u8, 0x01u8]
    } else {
        Seq::empty()
    }) + ((if explicit {
        seq![0xc2u8, 0x0au8, 0x00u8]
    } else {
        Seq::empty()
    }) + (seq![0xcau8, 0x14u8] + (clock_time_bytes(night.start) + (seq![0x00u8] + (seq![
        0xcau8,
        0x1eu8,
    ] + (clock_time_bytes(night.end) + settings_rest_bytes(
        night_color_temp,
        sun,
        night_preview_active,
    ))))))))
}

/// The frame and the tail that end the body, nested to the right.
proof fn lemma_sun_tail_nested(sun: ClockTimeFrame, preview: bool)
    ensures
        frame_bytes(sun, 0x32, 0x3c) + settings_tail_bytes(preview) == seq![0xcau8, 0x32u8] + (
        clock_time_bytes(sun.start) + (seq![0x00u8] + (seq![0xcau8, 0x3cu8] + (clock_time_bytes(
            sun.end,
        ) + (seq![0x00u8] + (preview_bytes(preview) + seq![
            0x00u8,
            0x00u8,
            0x00u8,
            0x00u8,
        ])))))),
{
    let a = seq![0xcau8, 0x32u8];
    let b1 = clock_time_bytes(sun.start);
    let z = seq![0x00u8];
    let c = seq![0xcau8, 0x3cu8];
    let b2 = clock_time_bytes(sun.end);
    let w = preview_bytes(preview);
    let t = seq![0x00u8, 0x00u8, 0x00u8, 0x00u8];
    assert(seq![0x00u8, 0xcau8, 0x3cu8] =~= z + c);
    assert(settings_tail_bytes(preview) == w + t);
    lemma_concat_associative(b2 + z, w, t);
    lemma_concat_associative(b2, z, w + t);
    lemma_concat_associative(z + c, b2, z + (w + t));
    lemma_concat_associative(z, c, b2 + (z + (w + t)));
    lemma_concat_associative(a + b1, z + c, b2 + (z + (w + t)));
    lemma_concat_associative(a, b1, z + (c + (b2 + (z + (w + t)))));
    assert(frame_bytes(sun, 0x32, 0x3c) == a + b1 + (z + c) + b2 + z);
    lemma_concat_associative(a + b1 + (z + c) + b2, z, w + t);
    lemma_concat_associative(a + b1 + (z + c), b2, z + (w + t));
}

/// The frame of the explicit schedule, without its final zero byte.
pub open spec fn night_frame_head(night: ClockTimeFrame) -> Seq<u8> {
    seq![0xcau8, 0x14u8] + (clock_time_bytes(night.start) + (seq![0x00u8] + (seq![0xcau8, 0x1eu8]
        + clock_time_bytes(night.end))))
}

proof fn lemma_night_frame_split(night: ClockTimeFrame)
    ensures
        frame_bytes(night, 0x14, 0x1e) == night_frame_head(night) + seq![0x00u8],
{
    assert(frame_bytes(night, 0x14, 0x1e) =~= night_frame_head(night) + seq![0x00u8]);
}

proof fn lemma_settings_body_bytes_nested(x: RawNightLightSettings)
    ensures
        spec_settings_body_bytes(x) == settings_body_bytes_nested(
            x.schedule_active.value(),
            x.schedule_type.value() is Explicit,
            x.scheduled_night.value(),
            x.night_color_temp.value(),
            sun_frame(x.sunset_to_sunrise),
            x.night_preview_active.value(),
        ),
{
    let night = x.scheduled_night.value();
    let sun = sun_frame(x.sunset_to_sunrise);
    let temp = x.night_color_temp.value();
    let preview = x.night_preview_active.value();
    let rest = settings_rest_bytes(temp, sun, preview);
    let head = settings_head_bytes(x.schedule_active.value(), x.schedule_type.value());
    let tb = night_color_temp_bytes(temp);
    let f2t = frame_bytes(sun, 0x32, 0x3c) + settings_tail_bytes(preview);
    let xb = night_frame_head(night);
    let z = seq![0x00u8];
    lemma_sun_tail_nested(sun, preview);
    assert(rest == z + (tb + f2t));
    lemma_night_frame_split(night);
    // head + (xb + z) + tb + f2 + tail
    lemma_concat_associative(head + (xb + z) + tb, frame_bytes(sun, 0x32, 0x3c), settings_tail_bytes(preview));
    lemma_concat_associative(head + (xb + z), tb, f2t);
    lemma_concat_associative(head, xb + z, tb + f2t);
    lemma_concat_associative(xb, z, tb + f2t);
    lemma_concat_associative(head, xb, rest);
    let sa: Seq<u8> = if x.schedule_active.value() {
        seq![0x02u8, 0x01u8]
    } else {
        Seq::empty()
    };
    let ex: Seq<u8> = if x.schedule_type.value() is Explicit {
        seq![0xc2u8, 0x0au8, 0x00u8]
    } else {
        Seq::empty()
    };
    assert(head == z + sa + ex);
    lemma_concat_associative(z + sa, ex, xb + rest);
    lemma_concat_associative(z, sa, ex + (xb + rest));
    let c14 = seq![0xcau8, 0x14u8];
    let bs = clock_time_bytes(night.start);
    let c1e = seq![0xcau8, 0x1eu8];
    let be = clock_time_bytes(night.end);
    lemma_concat_associative(c1e, be, rest);
    lemma_concat_associative(z, c1e + be, rest);
    lemma_concat_associative(bs, z + (c1e + be), rest);
    lemma_concat_associative(c14, bs + (z + (c1e + be)), rest);
}

/// Parsing the body of settings in steps: where each step succeeds, the body parses like the
/// part that follows the explicit schedule.
proof fn lemma_settings_body_steps(
    s: Seq<u8>,
    i0: nat,
    i1: nat,
    i4: nat,
    i5: nat,
    i6: nat,
    strictness: Strictness,
    epoch_secs: u32,
    schedule_active: bool,
    explicit: bool,
    start: ClockTime,
    end: ClockTime,
)
    requires
        spec_zero_or_lenient(s, i0, strictness) == Ok::<((), nat), ParseError>(((), i1)),
        has_prefix_at(s, i1 as int, seq![0x02u8, 0x01u8]) == schedule_active,
        has_prefix_at(
            s,
            (if schedule_active {
                (i1 + 2) as int
            } else {
                i1 as int
            }),
            seq![0xc2u8, 0x0au8, 0x00u8],
        ) == explicit,
        spec_tagged_clock_time(
            s,
            (i1 + (if schedule_active {
                2nat
            } else {
                0nat
            }) + (if explicit {
                3nat
            } else {
                0nat
            })) as nat,
            seq![0xcau8, 0x14u8],
            strictness,
        ) == Ok::<(ClockTime, nat), ParseError>((start, i4)),
        spec_zero_or_lenient(s, i4, strictness) == Ok::<((), nat), ParseError>(((), i5)),
        spec_tagged_clock_time(s, i5, seq![0xcau8, 0x1eu8], strictness) == Ok::<
            (ClockTime, nat),
            ParseError,
        >((end, i6)),
    ensures
        spec_settings_body(s, i0, strictness, epoch_secs) == spec_settings_rest(
            s,
            i6,
            strictness,
            epoch_secs,
            schedule_active,
            explicit,
            start,
            end,
        ),
{
    reveal(spec_settings_body);
}

/// Parsing the body bytes of settings, placed after any `prefix`, gives back what they were
/// made of.
proof fn lemma_settings_body_roundtrip(
    prefix: Seq<u8>,
    epoch_secs: u32,
    schedule_active: bool,
    explicit: bool,
    night: ClockTimeFrame,
    night_color_temp: Option<u16>,
    sun: ClockTimeFrame,
    night_preview_active: bool,
    strictness: Strictness,
)
    requires
        night.wf(),
        sun.wf(),
    ensures
        spec_settings_body(
            prefix + settings_body_bytes_nested(
                schedule_active,
                explicit,
                night,
                night_color_temp,
                sun,
                night_preview_active,
            ),
            prefix.len(),
            strictness,
            epoch_secs,
        ) == Ok::<RawNightLightSettings, ParseError>(
            settings_of(
                epoch_secs,
                schedule_active,
                explicit,
                night.start,
                night.end,
                night_color_temp,
                spec_sunset_to_sunrise(sun.start, sun.end),
                night_preview_active,
            ),
        ),
{
    let z: Seq<u8> = seq![0x00u8];
    let sa: Seq<u8> = if schedule_active {
        seq![0x02u8, 0x01u8]
    } else {
        Seq::empty()
    };
    let ex: Seq<u8> = if explicit {
        seq![0xc2u8, 0x0au8, 0x00u8]
    } else {
        Seq::empty()
    };
    let c14: Seq<u8> = seq![0xcau8, 0x14u8];
    let c1e: Seq<u8> = seq![0xcau8, 0x1eu8];
    let bs = clock_time_bytes(night.start);
    let be = clock_time_bytes(night.end);
    let rest = settings_rest_bytes(night_color_temp, sun, night_preview_active);
    let r7 = be + rest;
    let r6 = c1e + r7;
    let r5 = z + r6;
    let r4 = bs + r5;
    let r3 = c14 + r4;
    let r2 = ex + r3;
    let r1 = sa + r2;
    let s = prefix + settings_body_bytes_nested(
        schedule_active,
        explicit,
        night,
        night_color_temp,
        sun,
        night_preview_active,
    );
    assert(s == prefix + (z + r1));
    let p1 = prefix + z;
    let p2 = p1 + sa;
    let p3 = p2 + ex;
    let p4 = p3 + c14 + bs;
    let p5 = p4 + z;
    let p6 = p5 + c1e + be;
    let i0 = prefix.len();
    assert(spec_zero_or_lenient(s, i0, strictness) == Ok::<((), nat), ParseError>(
        ((), p1.len()),
    )) by {
        lemma_concat_associative(prefix, z, r1);
        lemma_zero_after_push(prefix, r1);
    }
    assert(s == p1 + r1) by {
        lemma_concat_associative(prefix, z, r1);
    }
    assert(has_prefix_at(s, p1.len() as int, seq![0x02u8, 0x01u8]) == schedule_active) by {
        lemma_concat_associative(p1, sa, r2);
        if schedule_active {
            lemma_const_after_push(p1, sa, r2);
        } else {
            assert(p2 =~= p1);
            lemma_no_const_before(p1, seq![0x02u8, 0x01u8], r2);
        }
    }
    assert(s == p2 + r2) by {
        lemma_concat_associative(p1, sa, r2);
    }
    assert(has_prefix_at(s, p2.len() as int, seq![0xc2u8, 0x0au8, 0x00u8]) == explicit) by {
        lemma_concat_associative(p2, ex, r3);
        if explicit {
            lemma_const_after_push(p2, ex, r3);
        } else {
            assert(p3 =~= p2);
            lemma_no_const_before(p2, seq![0xc2u8, 0x0au8, 0x00u8], r3);
        }
    }
    assert(s == p3 + r3) by {
        lemma_concat_associative(p2, ex, r3);
    }
    assert(spec_tagged_clock_time(s, p3.len(), c14, strictness) == Ok::<(ClockTime, nat), ParseError>(
        (night.start, p4.len()),
    )) by {
        lemma_concat_associative(p3, c14, r4);
        lemma_concat_associative(p3 + c14, bs, r5);
        lemma_tagged_clock_time_after_push(p3, 0x14, night.start, r5, strictness);
    }
    assert(s == p4 + r5) by {
        lemma_concat_associative(p3, c14, r4);
        lemma_concat_associative(p3 + c14, bs, r5);
    }
    assert(spec_zero_or_lenient(s, p4.len(), strictness) == Ok::<((), nat), ParseError>(
        ((), p5.len()),
    )) by {
        lemma_concat_associative(p4, z, r6);
        lemma_zero_after_push(p4, r6);
    }
    assert(s == p5 + r6) by {
        lemma_concat_associative(p4, z, r6);
    }
    assert(spec_tagged_clock_time(s, p5.len(), c1e, strictness) == Ok::<(ClockTime, nat), ParseError>(
        (night.end, p6.len()),
    )) by {
        lemma_concat_associative(p5, c1e, r7);
        lemma_concat_associative(p5 + c1e, be, rest);
        lemma_tagged_clock_time_after_push(p5, 0x1e, night.end, rest, strictness);
    }
    assert(s == p6 + rest) by {
        lemma_concat_associative(p5, c1e, r7);
        lemma_concat_associative(p5 + c1e, be, rest);
    }
    lemma_settings_body_steps(
        s,
        i0,
        p1.len(),
        p4.len(),
        p5.len(),
        p6.len(),
        strictness,
        epoch_secs,
        schedule_active,
        explicit,
        night.start,
        night.end,
    );
    lemma_settings_rest_roundtrip(
        p6,
        epoch_secs,
        schedule_active,
        explicit,
        night.start,
        night.end,
        night_color_temp,
        sun,
        night_preview_active,
        strictness,
    );
}

/// Law: parsing the bytes that settings are written as, at any time `now` within the format's
/// range, gives back the settings as they are after the write: their current values, the
/// timestamp written, and the sunset-to-sunrise frame as Windows reads it (none where both of
/// its clock times are midnight).
pub proof fn lemma_settings_roundtrip(
    x: RawNightLightSettings,
    now: EpochDuration,
    strictness: Strictness,
)
    requires
        x.scheduled_night.value().wf(),
        sun_frame(x.sunset_to_sunrise).wf(),
        now.secs <= u32::MAX,
        x.prologue_epoch_secs + 2 <= u32::MAX,
    ensures
        spec_settings(spec_settings_bytes(x, now), strictness) == Ok::<
            RawNightLightSettings,
            ParseError,
        >(
            settings_of(
                next_epoch_secs(now.secs, x.prologue_epoch_secs),
                x.schedule_active.value(),
                x.schedule_type.value() is Explicit,
                x.scheduled_night.value().start,
                x.scheduled_night.value().end,
                x.night_color_temp.value(),
                spec_sunset_to_sunrise(
                    sun_frame(x.sunset_to_sunrise).start,
                    sun_frame(x.sunset_to_sunrise).end,
                ),
                x.night_preview_active.value(),
            ),
        ),
{
    let body = spec_settings_body_bytes(x);
    let e = next_epoch_secs(now.secs, x.prologue_epoch_secs);
    lemma_settings_body_len(x);
    let p = CloudStoreValuePrologue { epoch_secs: Some(e), num_body_bytes: Some(body.len() as u32) };
    lemma_prologue_roundtrip(p, body, strictness);
    lemma_settings_body_bytes_nested(x);
    lemma_settings_body_roundtrip(
        spec_prologue_bytes(p),
        e,
        x.schedule_active.value(),
        x.schedule_type.value() is Explicit,
        x.scheduled_night.value(),
        x.night_color_temp.value(),
        sun_frame(x.sunset_to_sunrise),
        x.night_preview_active.value(),
        strictness,
    );
}

/// Law: the timestamp written with a change is later than the stored one, so that Windows
/// doesn't revert the change: it is the current time, or the stored timestamp plus two seconds,
/// whichever is greater.
pub proof fn lemma_next_epoch_secs(now_secs: u64, prologue_epoch_secs: u32)
    requires
        now_secs <= u32::MAX,
        prologue_epoch_secs + 2 <= u32::MAX,
    ensures
        ({
            let secs = next_epoch_secs(now_secs, prologue_epoch_secs);
            &&& secs >= now_secs
            &&& secs >= prologue_epoch_secs + 2
            &&& secs == now_secs || secs == prologue_epoch_secs + 2
        }),
{
}

/// Law: settings written at the time `now` carry as their timestamp the current time, or the
/// stored timestamp plus two seconds, whichever is greater; so it is later than the stored one
/// and Windows doesn't revert the change.
pub proof fn lemma_written_settings_timestamp(
    x: RawNightLightSettings,
    now: EpochDuration,
    strictness: Strictness,
)
    requires
        x.scheduled_night.value().wf(),
        sun_frame(x.sunset_to_sunrise).wf(),
        now.secs <= u32::MAX,
        x.prologue_epoch_secs + 2 <= u32::MAX,
    ensures
        spec_settings(spec_settings_bytes(x, now), strictness) matches Ok(y) && {
            &&& y.prologue_epoch_secs >= now.secs
            &&& y.prologue_epoch_secs >= x.prologue_epoch_secs + 2
            &&& y.prologue_epoch_secs == now.secs || y.prologue_epoch_secs == x.prologue_epoch_secs
                + 2
        },
{
    lemma_settings_roundtrip(x, now, strictness);
    lemma_next_epoch_secs(now.secs, x.prologue_epoch_secs);
}

/// Law: whatever strict parsing accepts of a settings registry value, lenient parsing accepts
/// alike, with the same result.
pub proof fn lemma_settings_strict_implies_lenient(s: Seq<u8>)
    requires
        spec_settings(s, Strictness::Strict) is Ok,
    ensures
        spec_settings(s, Strictness::Lenient) == spec_settings(s, Strictness::Strict),
{
    reveal(spec_settings_body);
    reveal(spec_settings_rest);
    lemma_prologue_strict_implies_lenient(s, 0);
}

} // verus!
