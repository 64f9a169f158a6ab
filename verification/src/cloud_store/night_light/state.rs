//! The state registry value of Night Light.

use vstd::prelude::*;

use crate::cloud_store::prologue::{
    assert_zero_or_lenient, lemma_prologue_roundtrip, lemma_prologue_strict_implies_lenient, lemma_trailer_of_zeros, read_trailer,
    spec_prologue, spec_prologue_bytes, spec_trailer, spec_zero_or_lenient,
    CloudStoreValuePrologue,
};
use crate::data_conversion::byte_seq::{
    has_prefix_at, lemma_const_after_push, lemma_no_const_before, lemma_vlq_read_after_push,
    lemma_vlq_bytes_len_63, lemma_zero_after_push, spec_const, spec_vlq, vlq_bytes, ByteSeq, ParseError,
};
use crate::data_conversion::time::{
    epoch_duration_in_range, epoch_duration_to_epoch_secs, epoch_duration_to_filetime,
    now_as_epoch_duration, EpochDuration, LATEST_FILETIME,
};
use crate::data_conversion::{Strictness, TrackedValue};
use super::settings::{next_epoch_secs, write_timestamps_fit};

verus! {

/// The contents of the state registry value.
#[derive(PartialEq, Debug)]
pub struct RawNightLightState {
    pub prologue_epoch_secs: u32,
    pub active: TrackedValue<bool>,
    pub transition_cause: TransitionCause,
    pub modified_filetime: i64,
}

/// What last switched Night Light on or off.
#[derive(Clone, Copy, PartialEq, Eq, Structural, Debug)]
pub enum TransitionCause {
    Manual,
    Schedule,
}

// ---------------------------------------------------------------------------------------------
// Parsing.
// ---------------------------------------------------------------------------------------------

/// The parsed state.
pub open spec fn state_of(
    prologue_epoch_secs: u32,
    active: bool,
    manual: bool,
    modified_filetime: i64,
) -> RawNightLightState {
    RawNightLightState {
        prologue_epoch_secs,
        active: TrackedValue::spec_new(active),
        transition_cause: if manual {
            TransitionCause::Manual
        } else {
            TransitionCause::Schedule
        },
        modified_filetime,
    }
}

/// Parsing the state registry value.
pub open spec fn spec_state(s: Seq<u8>, strictness: Strictness) -> Result<
    RawNightLightState,
    ParseError,
> {
    match spec_prologue(s, 0, strictness) {
        Err(e) => Err(e),
        Ok((p, i)) => match p.epoch_secs {
            None => Err(ParseError::InconsistentData),
            Some(epoch_secs) => if p.num_body_bytes is None && strictness is Strict {
                Err(ParseError::InconsistentData)
            } else {
                spec_state_body(s, i, strictness, epoch_secs)
            },
        },
    }
}

/// Parsing the body of the state registry value, from position `i`.
pub open spec fn spec_state_body(s: Seq<u8>, i: nat, strictness: Strictness, epoch_secs: u32) -> Result<
    RawNightLightState,
    ParseError,
> {
    match spec_zero_or_lenient(s, i, strictness) {
        Err(e) => Err(e),
        Ok((_, i1)) => {
            let active = has_prefix_at(s, i1 as int, seq![0x10u8, 0x00u8]);
            let i2 = if active {
                i1 + 2
            } else {
                i1
            };
            let manual = has_prefix_at(s, i2 as int, seq![0xd0u8, 0x0au8, 0x02u8]);
            let i3 = if manual {
                i2 + 3
            } else {
                i2
            };
            match spec_const(s, i3, seq![0xc6u8, 0x14u8]) {
                Err(e) => Err(e),
                Ok((_, i4)) => match spec_vlq(s, i4) {
                    Err(e) => Err(e),
                    Ok((filetime, i5)) => if filetime == 0 || filetime > LATEST_FILETIME {
                        Err(ParseError::ValueNotInRange)
                    } else {
                        match spec_trailer(s, i5, 4, strictness) {
                            Err(e) => Err(e),
                            Ok(_) => Ok(state_of(epoch_secs, active, manual, filetime as i64)),
                        }
                    },
                },
            }
        },
    }
}

// ---------------------------------------------------------------------------------------------
// Serialization.
// ---------------------------------------------------------------------------------------------

/// The body bytes of a state with the given modification `FILETIME`.
pub open spec fn spec_state_body_bytes(
    active: bool,
    transition_cause: TransitionCause,
    filetime: nat,
) -> Seq<u8> {
    seq![0x00u8] + (if active {
        seq![0x10u8, 0x00u8]
    } else {
        Seq::empty()
    }) + (if transition_cause is Manual {
        seq![0xd0u8, 0x0au8, 0x02u8]
    } else {
        Seq::empty()
    }) + seq![0xc6u8, 0x14u8] + vlq_bytes(filetime) + seq![0x00u8, 0x00u8, 0x00u8, 0x00u8]
}

/// The bytes of a state, written at the time `now`: the modification `FILETIME` becomes `now`.
pub open spec fn spec_state_bytes(x: RawNightLightState, now: EpochDuration) -> Seq<u8> {
    let body = spec_state_body_bytes(
        x.active.value(),
        x.transition_cause,
        now.filetime() as nat,
    );
    spec_prologue_bytes(
        CloudStoreValuePrologue {
            epoch_secs: Some(next_epoch_secs(now.secs, x.prologue_epoch_secs)),
            num_body_bytes: Some(body.len() as u32),
        },
    ) + body
}

// ---------------------------------------------------------------------------------------------
// Implementation.
// ---------------------------------------------------------------------------------------------

/// Reads the body of the state registry value.
fn read_state_body(byte_seq: &mut ByteSeq, strictness: Strictness, epoch_secs: u32) -> (r: Result<
    RawNightLightState,
    ParseError,
>)
    ensures
        r == spec_state_body(old(byte_seq).data(), old(byte_seq).pos(), strictness, epoch_secs),
{
    proof {
        use_type_invariant(&*byte_seq);
    }
    assert([0x10u8, 0x00u8]@ =~= seq![0x10u8, 0x00u8]);
    assert([0xd0u8, 0x0au8, 0x02u8]@ =~= seq![0xd0u8, 0x0au8, 0x02u8]);
    assert([0xc6u8, 0x14u8]@ =~= seq![0xc6u8, 0x14u8]);
    assert_zero_or_lenient(byte_seq, strictness)?;
    let active = byte_seq.assert_const(&[0x10, 0x00]).is_ok();
    let manual = byte_seq.assert_const(&[0xd0, 0x0a, 0x02]).is_ok();
    byte_seq.assert_const(&[0xc6, 0x14])?;
    let filetime = byte_seq.read_vlq_64()?;
    if filetime == 0 || filetime > LATEST_FILETIME as u64 {
        return Err(ParseError::ValueNotInRange);
    }
    read_trailer(byte_seq, 4, strictness)?;
    Ok(
        RawNightLightState {
            prologue_epoch_secs: epoch_secs,
            active: TrackedValue::new(active),
            transition_cause: if manual {
                TransitionCause::Manual
            } else {
                TransitionCause::Schedule
            },
            modified_filetime: filetime as i64,
        },
    )
}

impl RawNightLightState {
    /// Parses the state registry value.
    pub fn from_bytes(bytes: Vec<u8>, strictness: Strictness) -> (r: Result<Self, ParseError>)
        ensures
            r == spec_state(bytes@, strictness),
            r matches Ok(state) ==> 0 < state.modified_filetime <= LATEST_FILETIME,
    {
        proof {
            lemma_parsed_state_filetime(bytes@, strictness);
        }
        let mut byte_seq = ByteSeq::from_bytes(bytes);

        let prologue = CloudStoreValuePrologue::from_byte_seq(&mut byte_seq, strictness)?;
        let prologue_epoch_secs = match prologue.epoch_secs {
            Some(epoch_secs) => epoch_secs,
            None => return Err(ParseError::InconsistentData),
        };
        if prologue.num_body_bytes.is_none() && strictness.is_strict() {
            return Err(ParseError::InconsistentData);
        }
        read_state_body(&mut byte_seq, strictness, prologue_epoch_secs)
    }

    /// The state for when the registry value doesn't exist, at the time `now`.
    pub fn lenient_fallback(now: EpochDuration) -> (r: Self)
        requires
            now.in_range(),
        ensures
            r == state_of(now.secs as u32, false, true, now.filetime() as i64),
    {
        Self {
            prologue_epoch_secs: epoch_duration_to_epoch_secs(now),
            active: TrackedValue::new(false),
            transition_cause: TransitionCause::Manual,
            modified_filetime: epoch_duration_to_filetime(now),
        }
    }

    /// The bytes of the state, to be written at the time `now`. The modification timestamp
    /// becomes `now`, and the timestamp of the value too, but at least two seconds more than the
    /// stored one, so that Windows doesn't revert the change.
    pub fn to_bytes_at(&self, now: EpochDuration) -> (r: Vec<u8>)
        requires
            now.in_range(),
            self.prologue_epoch_secs + 2 <= u32::MAX,
        ensures
            r@ == spec_state_bytes(*self, now),
    {
        let now_epoch_secs = epoch_duration_to_epoch_secs(now);
        let now_filetime = epoch_duration_to_filetime(now);
        assert(now_filetime >= 0);

        let max_body_len: usize = 21;
        let mut body_byte_seq = ByteSeq::with_capacity(max_body_len);

        body_byte_seq.push_zero();
        if *self.active.get() {
            body_byte_seq.push_const(&[0x10, 0x00]);
        }
        if self.transition_cause == TransitionCause::Manual {
            body_byte_seq.push_const(&[0xd0, 0x0a, 0x02]);
        }

        body_byte_seq.push_const(&[0xc6, 0x14]);
        body_byte_seq.push_vlq_64(now_filetime as u64);

        let mut k: usize = 0;
        let ghost before_trailer = body_byte_seq.data();
        while k < 4
            invariant
                k <= 4,
                body_byte_seq.data() == before_trailer + Seq::new(k as nat, |j: int| 0u8),
                body_byte_seq.pos() == 0,
            decreases 4 - k,
        {
            body_byte_seq.push_zero();
            k = k + 1;
            assert(Seq::new(k as nat, |j: int| 0u8) =~= Seq::new((k - 1) as nat, |j: int| 0u8).push(
                0u8,
            ));
        }
        assert(Seq::new(4, |j: int| 0u8) =~= seq![0x00u8, 0x00u8, 0x00u8, 0x00u8]);
        assert(body_byte_seq.data() =~= spec_state_body_bytes(
            self.active.value(),
            self.transition_cause,
            now.filetime() as nat,
        ));

        let min_secs = self.prologue_epoch_secs + 2;
        let epoch_secs = if now_epoch_secs >= min_secs {
            now_epoch_secs
        } else {
            min_secs
        };
        let body_len = body_byte_seq.len();
        assert(body_len <= 21) by {
            lemma_vlq_bytes_len_63(now_filetime as nat);
        }
        let mut byte_seq = CloudStoreValuePrologue {
            epoch_secs: Some(epoch_secs),
            num_body_bytes: Some(body_len as u32),
        }.to_byte_seq(Some(max_body_len));
        byte_seq.extend(&body_byte_seq);
        byte_seq.into_bytes()
    }

    /// The bytes of the state, to be written at the time `now` (see [`Self::to_bytes_at()`]).
    /// `None` if a timestamp to be written lies beyond what the format can hold (after the year
    /// 2106): because `now` does, or because the stored timestamp is too close to it.
    pub fn to_bytes_checked_at(&self, now: EpochDuration) -> (r: Option<Vec<u8>>)
        ensures
            (r is Some) == write_timestamps_fit(self.prologue_epoch_secs, now),
            r matches Some(bytes) ==> bytes@ == spec_state_bytes(*self, now),
    {
        if epoch_duration_in_range(now) && self.prologue_epoch_secs <= u32::MAX - 2 {
            Some(self.to_bytes_at(now))
        } else {
            None
        }
    }

    /// The bytes of the state, to be written now (see [`Self::to_bytes_checked_at()`]). Which
    /// time is used depends on the system clock.
    pub fn to_bytes(&self) -> (r: Option<Vec<u8>>)
        ensures
            exists|now: EpochDuration|
                {
                    &&& now.wf()
                    &&& (r is Some) == #[trigger] write_timestamps_fit(self.prologue_epoch_secs, now)
                    &&& r matches Some(bytes) ==> bytes@ == spec_state_bytes(*self, now)
                },
    {
        self.to_bytes_checked_at(now_as_epoch_duration())
    }
}

// ---------------------------------------------------------------------------------------------
// Laws.
// ---------------------------------------------------------------------------------------------

/// Parsing the body bytes of a state, placed after any `prefix`, gives back what they were
/// made of.
#[verifier::rlimit(100)]
#[verifier::spinoff_prover]
proof fn lemma_state_body_roundtrip(
    prefix: Seq<u8>,
    epoch_secs: u32,
    active: bool,
    transition_cause: TransitionCause,
    filetime: nat,
    strictness: Strictness,
)
    requires
        0 < filetime <= LATEST_FILETIME,
    ensures
        spec_state_body(
            prefix + spec_state_body_bytes(active, transition_cause, filetime),
            prefix.len(),
            strictness,
            epoch_secs,
        ) == Ok::<RawNightLightState, ParseError>(
            state_of(epoch_secs, active, transition_cause is Manual, filetime as i64),
        ),
{
    let z: Seq<u8> = seq![0x00u8];
    let a: Seq<u8> = if active {
        seq![0x10u8, 0x00u8]
    } else {
        Seq::empty()
    };
    let m: Seq<u8> = if transition_cause is Manual {
        seq![0xd0u8, 0x0au8, 0x02u8]
    } else {
        Seq::empty()
    };
    let c: Seq<u8> = seq![0xc6u8, 0x14u8];
    let v = vlq_bytes(filetime);
    let t: Seq<u8> = seq![0x00u8, 0x00u8, 0x00u8, 0x00u8];
    let s = prefix + spec_state_body_bytes(active, transition_cause, filetime);
    let i = prefix.len();
    assert(s =~= prefix + z + (a + m + c + v + t));
    lemma_zero_after_push(prefix, a + m + c + v + t);
    let p1 = prefix + z;
    assert(s =~= p1 + a + (m + c + v + t));
    if active {
        lemma_const_after_push(p1, a, m + c + v + t);
    } else {
        assert(s =~= p1 + (m + c + v + t));
        lemma_no_const_before(p1, seq![0x10u8, 0x00u8], m + c + v + t);
    }
    let p2 = p1 + a;
    assert(s =~= p2 + m + (c + v + t));
    if transition_cause is Manual {
        lemma_const_after_push(p2, m, c + v + t);
    } else {
        assert(s =~= p2 + (c + v + t));
        lemma_no_const_before(p2, seq![0xd0u8, 0x0au8, 0x02u8], c + v + t);
    }
    let p3 = p2 + m;
    assert(s =~= p3 + c + (v + t));
    lemma_const_after_push(p3, c, v + t);
    let p4 = p3 + c;
    assert(s =~= p4 + v + t);
    lemma_vlq_read_after_push(p4, filetime as u64, t);
    let p5 = p4 + v;
    assert(t =~= Seq::new(4, |j: int| 0u8));
    assert(s =~= p5 + Seq::new(4, |j: int| 0u8));
    lemma_trailer_of_zeros(p5, 4, strictness);
}

/// Law: parsing the bytes that a state is written as, at any time `now` within the format's
/// range, gives back the state as it is after the write: its current active-state and
/// transition cause, the timestamp written, and `now` as the modification `FILETIME`.
pub proof fn lemma_state_roundtrip(x: RawNightLightState, now: EpochDuration, strictness: Strictness)
    requires
        now.in_range(),
        now.filetime() <= LATEST_FILETIME,
        x.prologue_epoch_secs + 2 <= u32::MAX,
    ensures
        spec_state(spec_state_bytes(x, now), strictness) == Ok::<RawNightLightState, ParseError>(
            state_of(
                next_epoch_secs(now.secs, x.prologue_epoch_secs),
                x.active.value(),
                x.transition_cause is Manual,
                now.filetime() as i64,
            ),
        ),
{
    let f = now.filetime() as nat;
    assert(f > 0);
    let body = spec_state_body_bytes(x.active.value(), x.transition_cause, f);
    let e = next_epoch_secs(now.secs, x.prologue_epoch_secs);
    lemma_vlq_bytes_len_63(f);
    let p = CloudStoreValuePrologue { epoch_secs: Some(e), num_body_bytes: Some(body.len() as u32) };
    lemma_prologue_roundtrip(p, body, strictness);
    lemma_state_body_roundtrip(
        spec_prologue_bytes(p),
        e,
        x.active.value(),
        x.transition_cause,
        f,
        strictness,
    );
}

/// Law: a parsed state's modification `FILETIME` is greater than 0 and at most the latest
/// possible one.
pub proof fn lemma_parsed_state_filetime(s: Seq<u8>, strictness: Strictness)
    ensures
        spec_state(s, strictness) matches Ok(state) ==> 0 < state.modified_filetime
            <= LATEST_FILETIME,
{
}

/// Law: a state written at the time `now` carries as its timestamp the current time, or the
/// stored timestamp plus two seconds, whichever is greater; so it is later than the stored one
/// and Windows doesn't revert the change.
pub proof fn lemma_written_state_timestamp(
    x: RawNightLightState,
    now: EpochDuration,
    strictness: Strictness,
)
    requires
        now.in_range(),
        now.filetime() <= LATEST_FILETIME,
        x.prologue_epoch_secs + 2 <= u32::MAX,
    ensures
        spec_state(spec_state_bytes(x, now), strictness) matches Ok(y) && {
            &&& y.prologue_epoch_secs >= now.secs
            &&& y.prologue_epoch_secs >= x.prologue_epoch_secs + 2
            &&& y.prologue_epoch_secs == now.secs || y.prologue_epoch_secs == x.prologue_epoch_secs
                + 2
        },
{
    lemma_state_roundtrip(x, now, strictness);
    super::settings::lemma_next_epoch_secs(now.secs, x.prologue_epoch_secs);
}

/// Law: whatever strict parsing accepts of a state registry value, lenient parsing accepts
/// alike, with the same result.
pub proof fn lemma_state_strict_implies_lenient(s: Seq<u8>)
    requires
        spec_state(s, Strictness::Strict) is Ok,
    ensures
        spec_state(s, Strictness::Lenient) == spec_state(s, Strictness::Strict),
{
    lemma_prologue_strict_implies_lenient(s, 0);
}

} // verus!
