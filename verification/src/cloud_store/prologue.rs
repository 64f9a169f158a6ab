//! The prologue that cloud store registry values start with.
//!
//! Examples of registry values:
//! ```text
//! 43 42 01 00 0a 02 01 00 2a 2a -- -- -- -- -- -- -- -- -- -- -- -- 00 00 00 00
//! 43 42 01 00 0a -- -- 00 26 -- 88 e2 be a9 06 -- -- -- -- -- -- -- 00
//! 43 42 01 00 0a 02 01 00 2a 06 a0 b8 db aa 06 2a 2b 0e 20 43 42 01 ...   (Night Light state)
//!                               ||||||||||||||                   ^^ ^^- prefixed num body bytes
//!                               ^^^^^^^^^^^^^^- VLQ-encoded epoch secs
//! ```

use vstd::prelude::*;

use crate::data_conversion::byte_seq::{
    has_prefix_at, lemma_vlq_read_after_push, spec_const, spec_exhausted, spec_vlq, spec_zero,
    vlq_bytes, ByteSeq, ParseError, Parsed,
};
use crate::data_conversion::Strictness;

verus! {

// ---------------------------------------------------------------------------------------------
// Parsing steps that depend on the strictness.
// ---------------------------------------------------------------------------------------------

/// A zero byte, whose absence lenient parsing overlooks.
pub open spec fn spec_zero_or_lenient(s: Seq<u8>, i: nat, strictness: Strictness) -> Parsed<()> {
    match spec_zero(s, i) {
        Ok(r) => Ok(r),
        Err(e) => if strictness is Lenient {
            Ok(((), i))
        } else {
            Err(e)
        },
    }
}

/// Constant bytes, whose absence lenient parsing overlooks.
pub open spec fn spec_const_or_lenient(
    s: Seq<u8>,
    i: nat,
    c: Seq<u8>,
    strictness: Strictness,
) -> Parsed<()> {
    match spec_const(s, i, c) {
        Ok(r) => Ok(r),
        Err(e) => if strictness is Lenient {
            Ok(((), i))
        } else {
            Err(e)
        },
    }
}

/// `n` zero bytes.
pub open spec fn spec_zeros(s: Seq<u8>, i: nat, n: nat) -> Parsed<()>
    decreases n,
{
    if n == 0 {
        Ok(((), i))
    } else {
        match spec_zero(s, i) {
            Ok((_, j)) => spec_zeros(s, j, (n - 1) as nat),
            Err(e) => Err(e),
        }
    }
}

/// The position after the zero bytes (at most `n`) that follow position `i`.
pub open spec fn zeros_end(s: Seq<u8>, i: nat, n: nat) -> nat
    decreases n,
{
    if n > 0 && i < s.len() && s[i as int] == 0 {
        zeros_end(s, i + 1, (n - 1) as nat)
    } else {
        i
    }
}

/// `n` zero bytes and then the end of the data. Lenient parsing overlooks a failure, leaving the
/// cursor after the zero bytes that were found.
pub open spec fn spec_trailer(s: Seq<u8>, i: nat, n: nat, strictness: Strictness) -> Parsed<()> {
    match spec_zeros(s, i, n) {
        Ok((_, j)) => match spec_exhausted(s, j) {
            Ok(r) => Ok(r),
            Err(e) => if strictness is Lenient {
                Ok(((), j))
            } else {
                Err(e)
            },
        },
        Err(e) => if strictness is Lenient {
            Ok(((), zeros_end(s, i, n)))
        } else {
            Err(e)
        },
    }
}

proof fn lemma_zeros(s: Seq<u8>, i: nat, n: nat)
    ensures
        spec_zeros(s, i, n) is Ok ==> spec_zeros(s, i, n) == Ok::<((), nat), ParseError>(
            ((), i + n),
        ),
        zeros_end(s, i, n) >= i,
        spec_zeros(s, i, n) is Ok ==> zeros_end(s, i, n) == i + n,
        i <= s.len() ==> zeros_end(s, i, n) <= s.len(),
    decreases n,
{
    if n > 0 && i < s.len() && s[i as int] == 0 {
        lemma_zeros(s, i + 1, (n - 1) as nat);
    }
}

/// Law: `n` zero bytes at the end of the data make a trailer.
pub proof fn lemma_trailer_of_zeros(prefix: Seq<u8>, n: nat, strictness: Strictness)
    ensures
        spec_trailer(prefix + Seq::new(n, |j: int| 0u8), prefix.len(), n, strictness) == Ok::<
            ((), nat),
            ParseError,
        >(((), prefix.len() + n)),
{
    lemma_zeros_present(prefix + Seq::new(n, |j: int| 0u8), prefix.len(), n);
}

proof fn lemma_zeros_present(s: Seq<u8>, i: nat, n: nat)
    requires
        i + n <= s.len(),
        forall|j: int| i <= j < i + n ==> s[j] == 0,
    ensures
        spec_zeros(s, i, n) == Ok::<((), nat), ParseError>(((), i + n)),
    decreases n,
{
    if n > 0 {
        lemma_zeros_present(s, i + 1, (n - 1) as nat);
    }
}

/// Moves past a zero byte; lenient parsing overlooks its absence.
pub fn assert_zero_or_lenient(byte_seq: &mut ByteSeq, strictness: Strictness) -> (r: Result<
    (),
    ParseError,
>)
    ensures
        final(byte_seq).data() == old(byte_seq).data(),
        final(byte_seq).pos() <= final(byte_seq).data().len(),
        spec_zero_or_lenient(old(byte_seq).data(), old(byte_seq).pos(), strictness) == match r {
            Ok(v) => Ok((v, final(byte_seq).pos())),
            Err(e) => Err(e),
        },
{
    proof {
        use_type_invariant(&*byte_seq);
    }
    match byte_seq.assert_zero() {
        Ok(()) => Ok(()),
        Err(e) => if strictness.is_lenient() {
            Ok(())
        } else {
            Err(e)
        },
    }
}

/// Moves past constant bytes; lenient parsing overlooks their absence.
pub fn assert_const_or_lenient(byte_seq: &mut ByteSeq, c: &[u8], strictness: Strictness) -> (r:
    Result<(), ParseError>)
    ensures
        final(byte_seq).data() == old(byte_seq).data(),
        final(byte_seq).pos() <= final(byte_seq).data().len(),
        spec_const_or_lenient(old(byte_seq).data(), old(byte_seq).pos(), c@, strictness)
            == match r {
            Ok(v) => Ok((v, final(byte_seq).pos())),
            Err(e) => Err(e),
        },
{
    proof {
        use_type_invariant(&*byte_seq);
    }
    match byte_seq.assert_const(c) {
        Ok(()) => Ok(()),
        Err(e) => if strictness.is_lenient() {
            Ok(())
        } else {
            Err(e)
        },
    }
}

/// Moves past `num_zeros` zero bytes and checks that the data ends there; lenient parsing
/// overlooks a failure.
pub fn read_trailer(byte_seq: &mut ByteSeq, num_zeros: usize, strictness: Strictness) -> (r:
    Result<(), ParseError>)
    ensures
        final(byte_seq).data() == old(byte_seq).data(),
        final(byte_seq).pos() <= final(byte_seq).data().len(),
        spec_trailer(old(byte_seq).data(), old(byte_seq).pos(), num_zeros as nat, strictness)
            == match r {
            Ok(v) => Ok((v, final(byte_seq).pos())),
            Err(e) => Err(e),
        },
{
    proof {
        use_type_invariant(&*byte_seq);
    }
    let ghost s = byte_seq.data();
    let ghost i0 = byte_seq.pos();
    let mut k: usize = 0;
    let mut zeros_result: Result<(), ParseError> = Ok(());
    while k < num_zeros
        invariant_except_break
            byte_seq.data() == s,
            k <= num_zeros,
            byte_seq.pos() == i0 + k,
            byte_seq.pos() <= s.len(),
            spec_zeros(s, i0, num_zeros as nat) == spec_zeros(
                s,
                byte_seq.pos(),
                (num_zeros - k) as nat,
            ),
            zeros_end(s, i0, num_zeros as nat) == zeros_end(
                s,
                byte_seq.pos(),
                (num_zeros - k) as nat,
            ),
            zeros_result is Ok,
        ensures
            byte_seq.data() == s,
            byte_seq.pos() <= s.len(),
            match zeros_result {
                Ok(_) => spec_zeros(s, i0, num_zeros as nat) == Ok::<((), nat), ParseError>(
                    ((), byte_seq.pos()),
                ),
                Err(e) => spec_zeros(s, i0, num_zeros as nat) == Err::<((), nat), ParseError>(e)
                    && zeros_end(s, i0, num_zeros as nat) == byte_seq.pos(),
            },
        decreases num_zeros - k,
    {
        match byte_seq.assert_zero() {
            Ok(()) => {},
            Err(e) => {
                zeros_result = Err(e);
                break ;
            },
        }
        k = k + 1;
    }
    let result = match zeros_result {
        Ok(()) => byte_seq.assert_exhausted(),
        Err(e) => Err(e),
    };
    match result {
        Ok(()) => Ok(()),
        Err(e) => if strictness.is_lenient() {
            Ok(())
        } else {
            Err(e)
        },
    }
}

// ---------------------------------------------------------------------------------------------
// The prologue.
// ---------------------------------------------------------------------------------------------

#[derive(PartialEq, Eq, Structural, Clone, Copy, Debug)]
pub struct CloudStoreValuePrologue {
    /// The Unix timestamp when the setting was last set. From what can be observed from the
    /// Night Light registry values, when writing a registry value, this number should always be
    /// greater than the number in the current registry value; otherwise, the registry value will
    /// be reverted. Windows sets this number in the Night Light registry values to the current
    /// time, or two seconds greater than the current number, whichever is greater (as of Nov.
    /// 2023).
    pub epoch_secs: Option<u32>,
    /// The number of bytes following the prologue.
    pub num_body_bytes: Option<u32>,
}

/// The signature that cloud store values (and bodies) start with.
pub open spec fn cloud_store_signature() -> Seq<u8> {
    seq![0x43u8, 0x42u8, 0x01u8]
}

/// Parsing a prologue at position `i`.
pub open spec fn spec_prologue(s: Seq<u8>, i: nat, strictness: Strictness) -> Parsed<
    CloudStoreValuePrologue,
> {
    match spec_const(s, i, cloud_store_signature()) {
        Err(e) => Err(e),
        Ok((_, i1)) => match spec_zero_or_lenient(s, i1, strictness) {
            Err(e) => Err(e),
            Ok((_, i2)) => match spec_const(s, i2, seq![0x0au8]) {
                Err(e) => Err(e),
                Ok((_, i3)) => {
                    let has_bytes_02_01 = has_prefix_at(s, i3 as int, seq![0x02u8, 0x01u8]);
                    let i4 = if has_bytes_02_01 {
                        i3 + 2
                    } else {
                        i3
                    };
                    match spec_zero_or_lenient(s, i4, strictness) {
                        Err(e) => Err(e),
                        Ok((_, i5)) => spec_prologue_tail(s, i5, strictness, has_bytes_02_01),
                    }
                },
            },
        },
    }
}

/// Parsing the part of a prologue that follows its fixed start, from position `i`.
pub open spec fn spec_prologue_tail(
    s: Seq<u8>,
    i: nat,
    strictness: Strictness,
    has_bytes_02_01: bool,
) -> Parsed<CloudStoreValuePrologue> {
    if has_prefix_at(s, i as int, seq![0x2au8, 0x2au8]) {
        if strictness is Strict && !has_bytes_02_01 {
            Err(ParseError::InconsistentData)
        } else {
            match spec_trailer(s, i + 2, 4, strictness) {
                Err(e) => Err(e),
                Ok((_, j)) => Ok(
                    (CloudStoreValuePrologue { epoch_secs: None, num_body_bytes: None }, j),
                ),
            }
        }
    } else if has_prefix_at(s, i as int, seq![0x26u8]) {
        match spec_vlq(s, i + 1) {
            Err(e) => Err(e),
            Ok((epoch_secs, j)) => if strictness is Strict && has_bytes_02_01 {
                Err(ParseError::InconsistentData)
            } else {
                match spec_trailer(s, j, 1, strictness) {
                    Err(e) => Err(e),
                    Ok((_, k)) => Ok(
                        (
                            CloudStoreValuePrologue {
                                epoch_secs: Some(epoch_secs as u32),
                                num_body_bytes: None,
                            },
                            k,
                        ),
                    ),
                }
            },
        }
    } else if has_prefix_at(s, i as int, seq![0x2au8, 0x06u8]) {
        match spec_vlq(s, i + 2) {
            Err(e) => Err(e),
            Ok((epoch_secs, j)) => if strictness is Strict && !has_bytes_02_01 {
                Err(ParseError::InconsistentData)
            } else {
                spec_prologue_body_size(s, j, strictness, epoch_secs as u32)
            },
        }
    } else {
        Err(ParseError::ExpectedConst(i as usize))
    }
}

/// Parsing the announced number of body bytes, at position `i`.
pub open spec fn spec_prologue_body_size(
    s: Seq<u8>,
    i: nat,
    strictness: Strictness,
    epoch_secs: u32,
) -> Parsed<CloudStoreValuePrologue> {
    match spec_const(s, i, seq![0x2au8, 0x2bu8]) {
        Err(e) => Err(e),
        Ok((_, j1)) => match spec_const(s, j1, seq![0x0eu8]) {
            Err(e) => Err(e),
            Ok((_, j2)) => match spec_vlq(s, j2) {
                Err(e) => Err(e),
                Ok((num, j3)) => if num > u32::MAX {
                    Err(ParseError::ValueNotInRange)
                } else {
                    match spec_const_or_lenient(s, j3, cloud_store_signature(), strictness) {
                        Err(e) => Err(e),
                        Ok((_, j4)) => if strictness is Strict && s.len() - j4 != num {
                            Err(ParseError::InconsistentData)
                        } else {
                            Ok(
                                (
                                    CloudStoreValuePrologue {
                                        epoch_secs: Some(epoch_secs),
                                        num_body_bytes: Some(num as u32),
                                    },
                                    j4,
                                ),
                            )
                        },
                    }
                },
            },
        },
    }
}

/// The bytes of a prologue.
pub open spec fn spec_prologue_bytes(p: CloudStoreValuePrologue) -> Seq<u8> {
    cloud_store_signature() + seq![0x00u8, 0x0au8] + (if p.epoch_secs is None
        || p.num_body_bytes is Some {
        seq![0x02u8, 0x01u8]
    } else {
        Seq::empty()
    }) + seq![0x00u8] + match p.epoch_secs {
        None => seq![0x2au8, 0x2au8, 0x00u8, 0x00u8, 0x00u8, 0x00u8],
        Some(epoch_secs) => (match p.num_body_bytes {
            None => seq![0x26u8],
            Some(_) => seq![0x2au8, 0x06u8],
        }) + vlq_bytes(epoch_secs as nat) + match p.num_body_bytes {
            None => seq![0x00u8],
            Some(num_body_bytes) => seq![0x2au8, 0x2bu8, 0x0eu8] + vlq_bytes(num_body_bytes as nat)
                + cloud_store_signature(),
        },
    }
}

impl CloudStoreValuePrologue {
    /// Parses a prologue at the cursor and moves past it. Doesn't parse the body that may
    /// follow.
    pub fn from_byte_seq(byte_seq: &mut ByteSeq, strictness: Strictness) -> (r: Result<
        Self,
        ParseError,
    >)
        ensures
            final(byte_seq).data() == old(byte_seq).data(),
            final(byte_seq).pos() <= final(byte_seq).data().len(),
            spec_prologue(old(byte_seq).data(), old(byte_seq).pos(), strictness) == match r {
                Ok(p) => Ok((p, final(byte_seq).pos())),
                Err(e) => Err(e),
            },
    {
        proof {
            use_type_invariant(&*byte_seq);
        }
        let ghost s = byte_seq.data();
        proof {
            assert([0x43u8, 0x42u8, 0x01u8]@ =~= cloud_store_signature());
            assert([0x0au8]@ =~= seq![0x0au8]);
            assert([0x02u8, 0x01u8]@ =~= seq![0x02u8, 0x01u8]);
            assert([0x2au8, 0x2au8]@ =~= seq![0x2au8, 0x2au8]);
            assert([0x26u8]@ =~= seq![0x26u8]);
            assert([0x2au8, 0x06u8]@ =~= seq![0x2au8, 0x06u8]);
            assert([0x2au8, 0x2bu8]@ =~= seq![0x2au8, 0x2bu8]);
            assert([0x0eu8]@ =~= seq![0x0eu8]);
        }
        byte_seq.assert_const(&[0x43, 0x42, 0x01])?;

        assert_zero_or_lenient(byte_seq, strictness)?;
        byte_seq.assert_const(&[0x0a])?;
        let ghost i3 = byte_seq.pos();
        let has_bytes_02_01 = byte_seq.assert_const(&[0x02, 0x01]).is_ok();

        assert_zero_or_lenient(byte_seq, strictness)?;
        let ghost i5 = byte_seq.pos();
        let (has_bytes_2a_2a, has_byte_26) = if byte_seq.assert_const(&[0x2a, 0x2a]).is_ok() {
            (true, false)
        } else if byte_seq.assert_const(&[0x26]).is_ok() {
            (false, true)
        } else {
            byte_seq.assert_const(&[0x2a, 0x06])?;
            (false, false)
        };
        let epoch_secs = if has_bytes_2a_2a {
            None
        } else {
            Some(byte_seq.read_vlq_64()? as u32)
        };

        if has_bytes_2a_2a {
            if strictness.is_strict() && !has_bytes_02_01 {
                return Err(ParseError::InconsistentData);
            }
            read_trailer(byte_seq, 4, strictness)?;
            Ok(Self { epoch_secs, num_body_bytes: None })
        } else if has_byte_26 {
            if strictness.is_strict() && has_bytes_02_01 {
                return Err(ParseError::InconsistentData);
            }
            read_trailer(byte_seq, 1, strictness)?;
            Ok(Self { epoch_secs, num_body_bytes: None })
        } else {
            if strictness.is_strict() && !has_bytes_02_01 {
                return Err(ParseError::InconsistentData);
            }
            byte_seq.assert_const(&[0x2a, 0x2b])?;
            byte_seq.assert_const(&[0x0e])?;
            let num = byte_seq.read_vlq_64()?;
            if num > u32::MAX as u64 {
                return Err(ParseError::ValueNotInRange);
            }
            let num_body_bytes = num as u32;

            assert_const_or_lenient(byte_seq, &[0x43, 0x42, 0x01], strictness)?;

            if strictness.is_strict() && byte_seq.num_bytes_left() != num_body_bytes as usize {
                return Err(ParseError::InconsistentData);
            }
            // (Body follows, but is parsed in more specific implementations.)

            Ok(Self { epoch_secs, num_body_bytes: Some(num_body_bytes) })
        }
    }

    /// The bytes of the prologue, in a byte sequence with room for `additional_capacity` more.
    pub fn to_byte_seq(&self, additional_capacity: Option<usize>) -> (r: ByteSeq)
        requires
            additional_capacity matches Some(c) ==> c + 22 <= usize::MAX,
        ensures
            r.data() == spec_prologue_bytes(*self),
            r.pos() == 0,
    {
        let max_prologue_len: usize = 22;
        let mut byte_seq = ByteSeq::with_capacity(
            if let Some(additional_capacity) = additional_capacity {
                max_prologue_len + additional_capacity
            } else {
                max_prologue_len
            },
        );

        byte_seq.push_const(&[0x43, 0x42, 0x01]);

        byte_seq.push_zero();
        byte_seq.push_const(&[0x0a]);
        if self.epoch_secs.is_none() || self.num_body_bytes.is_some() {
            byte_seq.push_const(&[0x02, 0x01]);
        }
        byte_seq.push_zero();
        let ghost start = byte_seq.data();
        assert(start == cloud_store_signature() + seq![0x00u8, 0x0au8] + (if self.epoch_secs is None
            || self.num_body_bytes is Some {
            seq![0x02u8, 0x01u8]
        } else {
            Seq::empty()
        }) + seq![0x00u8]);

        match self.epoch_secs {
            None => {
                byte_seq.push_const(&[0x2a, 0x2a]);
                let mut k: usize = 0;
                while k < 4
                    invariant
                        k <= 4,
                        byte_seq.data() == start + seq![0x2au8, 0x2au8] + Seq::new(
                            k as nat,
                            |j: int| 0u8,
                        ),
                        byte_seq.pos() == 0,
                    decreases 4 - k,
                {
                    byte_seq.push_zero();
                    k = k + 1;
                    assert(Seq::new(k as nat, |j: int| 0u8) =~= Seq::new(
                        (k - 1) as nat,
                        |j: int| 0u8,
                    ).push(0u8));
                }
                assert(Seq::new(4, |j: int| 0u8) =~= seq![0x00u8, 0x00u8, 0x00u8, 0x00u8]);
            },
            Some(epoch_secs) => {
                match self.num_body_bytes {
                    None => byte_seq.push_const(&[0x26]),
                    Some(_) => byte_seq.push_const(&[0x2a, 0x06]),
                }
                byte_seq.push_vlq_64(epoch_secs as u64);

                match self.num_body_bytes {
                    None => byte_seq.push_zero(),
                    Some(num_body_bytes) => {
                        byte_seq.push_const(&[0x2a, 0x2b]);
                        byte_seq.push_const(&[0x0e]);
                        byte_seq.push_vlq_64(num_body_bytes as u64);

                        byte_seq.push_const(&[0x43, 0x42, 0x01]);
                    },
                }
            },
        }
        assert(byte_seq.data() =~= spec_prologue_bytes(*self));
        byte_seq
    }
}

proof fn lemma_prologue_roundtrip_untimed(strictness: Strictness)
    ensures
        ({
            let p = CloudStoreValuePrologue { epoch_secs: None, num_body_bytes: None };
            spec_prologue(spec_prologue_bytes(p), 0, strictness) == Ok::<
                (CloudStoreValuePrologue, nat),
                ParseError,
            >((p, spec_prologue_bytes(p).len()))
        }),
{
    let p = CloudStoreValuePrologue { epoch_secs: None, num_body_bytes: None };
    let s = spec_prologue_bytes(p);
    let sig = cloud_store_signature();
    assert(s =~= seq![
        0x43u8, 0x42u8, 0x01u8, 0x00u8, 0x0au8, 0x02u8, 0x01u8, 0x00u8, 0x2au8, 0x2au8,
        0x00u8, 0x00u8, 0x00u8, 0x00u8,
    ]);
    assert(s.subrange(0, 3) =~= sig);
    assert(s.subrange(4, 5) =~= seq![0x0au8]);
    assert(s.subrange(5, 7) =~= seq![0x02u8, 0x01u8]);
    assert(s.subrange(8, 10) =~= seq![0x2au8, 0x2au8]);
    lemma_zeros_present(s, 10, 4);
    assert(spec_trailer(s, 10, 4, strictness) == Ok::<((), nat), ParseError>(((), 14)));
    assert(spec_prologue_tail(s, 8, strictness, true) == Ok::<
        (CloudStoreValuePrologue, nat),
        ParseError,
    >((p, 14)));
}

proof fn lemma_prologue_roundtrip_bodyless(e: u32, strictness: Strictness)
    ensures
        ({
            let p = CloudStoreValuePrologue { epoch_secs: Some(e), num_body_bytes: None };
            spec_prologue(spec_prologue_bytes(p), 0, strictness) == Ok::<
                (CloudStoreValuePrologue, nat),
                ParseError,
            >((p, spec_prologue_bytes(p).len()))
        }),
{
    let p = CloudStoreValuePrologue { epoch_secs: Some(e), num_body_bytes: None };
    let s = spec_prologue_bytes(p);
    let sig = cloud_store_signature();
    let ev = vlq_bytes(e as nat);
    let head = seq![0x43u8, 0x42u8, 0x01u8, 0x00u8, 0x0au8, 0x00u8, 0x26u8];
    let tail = seq![0x00u8];
    assert(s =~= head + ev + tail);
    assert(s.subrange(0, 3) =~= sig);
    assert(s.subrange(4, 5) =~= seq![0x0au8]);
    assert(s.subrange(6, 7) =~= seq![0x26u8]);
    lemma_vlq_read_after_push(head, e as u64, tail);
    let j = 7 + ev.len();
    assert(spec_vlq(s, 7) == Ok::<(u64, nat), ParseError>((e as u64, j)));
    lemma_zeros_present(s, j, 1);
    assert(spec_trailer(s, j, 1, strictness) == Ok::<((), nat), ParseError>(((), j + 1)));
    assert(spec_prologue_tail(s, 6, strictness, false) == Ok::<
        (CloudStoreValuePrologue, nat),
        ParseError,
    >((p, j + 1)));
}

#[verifier::rlimit(60)]
proof fn lemma_prologue_roundtrip_with_body(e: u32, n: u32, body: Seq<u8>, strictness: Strictness)
    requires
        body.len() == n,
    ensures
        ({
            let p = CloudStoreValuePrologue { epoch_secs: Some(e), num_body_bytes: Some(n) };
            spec_prologue(spec_prologue_bytes(p) + body, 0, strictness) == Ok::<
                (CloudStoreValuePrologue, nat),
                ParseError,
            >((p, spec_prologue_bytes(p).len()))
        }),
{
    let p = CloudStoreValuePrologue { epoch_secs: Some(e), num_body_bytes: Some(n) };
    let s = spec_prologue_bytes(p) + body;
    let sig = cloud_store_signature();
    let ev = vlq_bytes(e as nat);
    let head = seq![
        0x43u8, 0x42u8, 0x01u8, 0x00u8, 0x0au8, 0x02u8, 0x01u8, 0x00u8, 0x2au8, 0x06u8,
    ];
    let mid = seq![0x2au8, 0x2bu8, 0x0eu8];
    let nv = vlq_bytes(n as nat);
    let tail = mid + nv + sig + body;
    assert(s =~= head + ev + tail);
    assert(s.subrange(0, 3) =~= sig);
    assert(s.subrange(4, 5) =~= seq![0x0au8]);
    assert(s.subrange(5, 7) =~= seq![0x02u8, 0x01u8]);
    assert(s.subrange(8, 10) =~= seq![0x2au8, 0x06u8]);
    lemma_vlq_read_after_push(head, e as u64, tail);
    let j: nat = 10 + ev.len();
    assert(spec_vlq(s, 10) == Ok::<(u64, nat), ParseError>((e as u64, j)));
    assert(s.subrange(j as int, j + 2 as int) =~= seq![0x2au8, 0x2bu8]);
    assert(s.subrange(j + 2 as int, j + 3 as int) =~= seq![0x0eu8]);
    let head2 = head + ev + mid;
    let tail2 = sig + body;
    assert(s =~= head2 + nv + tail2);
    lemma_vlq_read_after_push(head2, n as u64, tail2);
    let k: nat = head2.len() + nv.len();
    assert(spec_vlq(s, j + 3) == Ok::<(u64, nat), ParseError>((n as u64, k)));
    assert(s.subrange(k as int, k + 3 as int) =~= sig);
    assert(spec_prologue_body_size(s, j, strictness, e) == Ok::<
        (CloudStoreValuePrologue, nat),
        ParseError,
    >((p, k + 3)));
    assert(spec_prologue_tail(s, 8, strictness, true) == Ok::<
        (CloudStoreValuePrologue, nat),
        ParseError,
    >((p, k + 3)));
}

/// Law: a prologue's bytes, followed by as many body bytes as it announces, parse back to the
/// same prologue, which ends where its bytes end (in strict and in lenient mode). This holds for
/// every prologue but one that announces body bytes without a timestamp, which the format can't
/// express.
pub proof fn lemma_prologue_roundtrip(
    p: CloudStoreValuePrologue,
    body: Seq<u8>,
    strictness: Strictness,
)
    requires
        !(p.epoch_secs is None && p.num_body_bytes is Some),
        body.len() == match p.num_body_bytes {
            Some(n) => n as nat,
            None => 0nat,
        },
    ensures
        spec_prologue(spec_prologue_bytes(p) + body, 0, strictness) == Ok::<
            (CloudStoreValuePrologue, nat),
            ParseError,
        >((p, spec_prologue_bytes(p).len())),
{
    match p.epoch_secs {
        None => {
            assert(body =~= Seq::<u8>::empty());
            assert(spec_prologue_bytes(p) + body =~= spec_prologue_bytes(p));
            lemma_prologue_roundtrip_untimed(strictness);
        },
        Some(e) => match p.num_body_bytes {
            None => {
                assert(body =~= Seq::<u8>::empty());
                assert(spec_prologue_bytes(p) + body =~= spec_prologue_bytes(p));
                lemma_prologue_roundtrip_bodyless(e, strictness);
            },
            Some(n) => {
                lemma_prologue_roundtrip_with_body(e, n, body, strictness);
            },
        },
    }
}

/// Law: whatever strict parsing accepts, lenient parsing accepts alike, with the same result.
pub proof fn lemma_prologue_strict_implies_lenient(s: Seq<u8>, i: nat)
    requires
        spec_prologue(s, i, Strictness::Strict) is Ok,
    ensures
        spec_prologue(s, i, Strictness::Lenient) == spec_prologue(s, i, Strictness::Strict),
{
}

} // verus!
