//! A byte sequence with a read cursor, used to parse and build binary registry values.
//!
//! Integers of the format are either single bytes, or VLQs (variable-length quantities:
//! little-endian 7-bit groups, the high bit of each byte telling whether another byte
//! follows), possibly zigzag-encoded to carry signed values.

use vstd::prelude::*;
use vstd::std_specs::convert::FromSpecImpl;

verus! {

/// The position where a parse result leaves the cursor, together with the parsed value.
pub type Parsed<T> = Result<(T, nat), ParseError>;

/// Errors when parsing a byte stream.
#[derive(PartialEq, Eq, Structural, Clone, Copy, Debug)]
pub enum ParseError {
    /// Expected certain bytes. This and some other variants bring the byte index with it where the
    /// respective item was expected, but not found.
    ExpectedConst(usize),
    /// Expected a zero-byte.
    ExpectedZero(usize),
    /// Expected an integer with a certain byte size (little endian).
    ExpectedInt(usize),
    /// Expected a VLQ (variable-length quantity) with a maximum of 64 data bits (little endian;
    /// possibly also zigzag-encoded).
    ExpectedVlq64(usize),
    /// Encountered an exceptional value.
    ValueNotInRange,
    /// Different parts of the data don't harmonize with each other.
    InconsistentData,
    /// Expected the end of the byte stream, but still found data.
    DataAfterExpectedEnd,
}

// ---------------------------------------------------------------------------------------------
// The format's primitives, as functions on a byte sequence and a position.
// ---------------------------------------------------------------------------------------------

/// `c` stands in `s` at position `i`.
pub open spec fn has_prefix_at(s: Seq<u8>, i: int, c: Seq<u8>) -> bool {
    0 <= i && i + c.len() <= s.len() && s.subrange(i, i + c.len()) == c
}

/// Matching the constant bytes `c` at position `i`.
pub open spec fn spec_const(s: Seq<u8>, i: nat, c: Seq<u8>) -> Parsed<()> {
    if has_prefix_at(s, i as int, c) {
        Ok(((), i + c.len()))
    } else {
        Err(ParseError::ExpectedConst(i as usize))
    }
}

/// Matching a zero byte at position `i`.
pub open spec fn spec_zero(s: Seq<u8>, i: nat) -> Parsed<()> {
    if i < s.len() && s[i as int] == 0 {
        Ok(((), i + 1))
    } else {
        Err(ParseError::ExpectedZero(i as usize))
    }
}

/// Reading a single-byte integer at position `i`.
pub open spec fn spec_int(s: Seq<u8>, i: nat) -> Parsed<u8> {
    if i < s.len() {
        Ok((s[i as int], i + 1))
    } else {
        Err(ParseError::ExpectedInt(i as usize))
    }
}

/// Checking that no byte follows position `i`.
pub open spec fn spec_exhausted(s: Seq<u8>, i: nat) -> Parsed<()> {
    if i >= s.len() {
        Ok(((), i))
    } else {
        Err(ParseError::DataAfterExpectedEnd)
    }
}

/// `128` to the power of `k`.
pub open spec fn pow128(k: nat) -> nat
    decreases k,
{
    if k == 0 {
        1
    } else {
        128 * pow128((k - 1) as nat)
    }
}

/// The exclusive bound of the value that the VLQ groups from group `k` on can carry, so that the
/// whole value fits in 64 bits: `2^(64 - 7 * k)` for `k <= 9`.
pub open spec fn vlq_group_bound(k: nat) -> nat
    decreases 9 - k,
{
    if k >= 9 {
        2
    } else {
        128 * vlq_group_bound(k + 1)
    }
}

/// Decoding a VLQ whose group number `k` (counted from 0) stands at position `i`: the value of
/// the groups from there on, and the number of bytes they take. In the tenth group, only the
/// lowest bit may be set, so that the value fits in 64 bits.
pub open spec fn vlq_get(s: Seq<u8>, i: int, k: nat) -> Option<(nat, nat)>
    decreases s.len() - i,
{
    if i < 0 || i >= s.len() {
        None
    } else if k == 9 && s[i] >= 2 {
        None
    } else if s[i] < 128 {
        Some((s[i] as nat, 1nat))
    } else {
        match vlq_get(s, i + 1, k + 1) {
            Some((v, n)) => Some(((s[i] - 128) as nat + 128 * v, n + 1)),
            None => None,
        }
    }
}

/// Reading a VLQ at position `i`.
pub open spec fn spec_vlq(s: Seq<u8>, i: nat) -> Parsed<u64> {
    match vlq_get(s, i as int, 0) {
        Some((v, n)) => Ok((v as u64, i + n)),
        None => Err(ParseError::ExpectedVlq64(i as usize)),
    }
}

/// The shortest VLQ encoding of `v`.
pub open spec fn vlq_bytes(v: nat) -> Seq<u8>
    decreases v,
{
    if v < 128 {
        seq![v as u8]
    } else {
        seq![(v % 128 + 128) as u8] + vlq_bytes(v / 128)
    }
}

/// Zigzag encoding: the non-negative numbers to the even, the negative ones to the odd numbers.
pub open spec fn zigzag_encode(v: int) -> int {
    if v >= 0 {
        2 * v
    } else {
        -2 * v - 1
    }
}

/// The inverse of [`zigzag_encode`].
pub open spec fn zigzag_decode(u: int) -> int {
    if u % 2 == 0 {
        u / 2
    } else {
        -((u + 1) / 2)
    }
}

/// Reading a zigzag-encoded VLQ at position `i`.
pub open spec fn spec_zigzag_vlq(s: Seq<u8>, i: nat) -> Parsed<i64> {
    match spec_vlq(s, i) {
        Ok((u, j)) => Ok((zigzag_decode(u as int) as i64, j)),
        Err(e) => Err(e),
    }
}

/// The bytes of a zigzag-encoded VLQ.
pub open spec fn zigzag_vlq_bytes(v: int) -> Seq<u8> {
    vlq_bytes(zigzag_encode(v) as nat)
}

// ---------------------------------------------------------------------------------------------
// Lemmas about the primitives.
// ---------------------------------------------------------------------------------------------

proof fn lemma_pow128_values(k: nat)
    requires
        k <= 9,
    ensures
        k <= 8 ==> pow128(k) <= 0x0100_0000_0000_0000,
        k == 9 ==> pow128(k) == 0x8000_0000_0000_0000,
        pow128(k) >= 1,
{
    reveal_with_fuel(pow128, 10);
    if k == 0 {
    } else if k == 1 {
    } else if k == 2 {
    } else if k == 3 {
    } else if k == 4 {
    } else if k == 5 {
    } else if k == 6 {
    } else if k == 7 {
    } else if k == 8 {
    } else {
    }
}

proof fn lemma_vlq_group_bound(k: nat)
    requires
        k <= 9,
    ensures
        vlq_group_bound(k) >= 2,
        k <= 8 ==> vlq_group_bound(k) >= 256,
        k == 0 ==> vlq_group_bound(k) == 0x1_0000_0000_0000_0000,
    decreases 9 - k,
{
    if k < 9 {
        lemma_vlq_group_bound(k + 1);
    }
    if k == 0 {
        reveal_with_fuel(vlq_group_bound, 10);
    }
}

/// What a VLQ decodes to from group `k` on stays under the bound of that group.
proof fn lemma_vlq_get_bound(s: Seq<u8>, i: int, k: nat)
    requires
        k <= 9,
    ensures
        vlq_get(s, i, k) matches Some((v, n)) ==> v < vlq_group_bound(k) && 1 <= n <= 10 - k,
    decreases s.len() - i,
{
    lemma_vlq_group_bound(k);
    if 0 <= i < s.len() && !(k == 9 && s[i] >= 2) && s[i] >= 128 {
        lemma_vlq_get_bound(s, i + 1, k + 1);
        lemma_vlq_group_bound(k + 1);
    }
}

/// A value below `128` to the power of `k` (`k >= 1`) takes at most `k` bytes as a VLQ.
proof fn lemma_vlq_bytes_len_pow(v: nat, k: nat)
    requires
        k >= 1,
        v < pow128(k),
    ensures
        vlq_bytes(v).len() <= k,
    decreases v,
{
    if v >= 128 {
        assert(k >= 2) by {
            if k == 1 {
                reveal_with_fuel(pow128, 2);
            }
        }
        assert(v / 128 < pow128((k - 1) as nat)) by {
            assert(pow128(k) == 128 * pow128((k - 1) as nat));
        }
        lemma_vlq_bytes_len_pow(v / 128, (k - 1) as nat);
    }
}

/// A VLQ that takes at most `k` bytes holds a value below `128` to the power of `k`.
proof fn lemma_vlq_bytes_len_bound(v: nat, k: nat)
    requires
        vlq_bytes(v).len() <= k,
    ensures
        v < pow128(k),
    decreases v,
{
    if v < 128 {
        assert(k >= 1);
        lemma_pow128_at_least_128(k);
    } else {
        assert(vlq_bytes(v).len() == 1 + vlq_bytes(v / 128).len());
        lemma_vlq_bytes_len_bound(v / 128, (k - 1) as nat);
        assert(pow128(k) == 128 * pow128((k - 1) as nat));
    }
}

proof fn lemma_pow128_at_least_128(k: nat)
    requires
        k >= 1,
    ensures
        pow128(k) >= 128,
    decreases k,
{
    if k > 1 {
        lemma_pow128_at_least_128((k - 1) as nat);
    } else {
        reveal_with_fuel(pow128, 2);
    }
}

/// Law: the VLQ of a value is its shortest encoding in 7-bit groups: it takes at most `k` bytes
/// (`k >= 1`) exactly when the value is below `128` to the power of `k`, so one byte for values
/// below 128, and at most ten bytes for a 64-bit value.
pub proof fn lemma_vlq_bytes_len(v: nat, k: nat)
    requires
        k >= 1,
    ensures
        vlq_bytes(v).len() <= k <==> v < pow128(k),
        vlq_bytes(v).len() >= 1,
        v <= u64::MAX ==> vlq_bytes(v).len() <= 10,
{
    if v < pow128(k) {
        lemma_vlq_bytes_len_pow(v, k);
    }
    if vlq_bytes(v).len() <= k {
        lemma_vlq_bytes_len_bound(v, k);
    }
    if v <= u64::MAX {
        lemma_pow128_values(9);
        assert(pow128(10) == 128 * pow128(9));
        lemma_vlq_bytes_len_pow(v, 10);
    }
}

/// A value of 63 bits takes at most nine bytes as a VLQ.
pub proof fn lemma_vlq_bytes_len_63(v: nat)
    requires
        v <= i64::MAX,
    ensures
        vlq_bytes(v).len() <= 9,
{
    lemma_pow128_values(9);
    lemma_vlq_bytes_len_pow(v, 9);
}

/// A decoded VLQ always fits in 64 bits and takes at most ten bytes.
pub proof fn lemma_vlq_get_fits(s: Seq<u8>, i: int)
    ensures
        vlq_get(s, i, 0) matches Some((v, n)) ==> v <= u64::MAX && 1 <= n <= 10,
{
    lemma_vlq_get_bound(s, i, 0);
    lemma_vlq_group_bound(0);
}

/// The encoding of a value below the bound of group `k`, placed at position `i`, decodes to that
/// value and takes all of its bytes, whatever follows.
proof fn lemma_vlq_roundtrip_from(v: nat, s: Seq<u8>, i: int, k: nat)
    requires
        k <= 9,
        v < vlq_group_bound(k),
        has_prefix_at(s, i, vlq_bytes(v)),
    ensures
        vlq_get(s, i, k) == Some((v, vlq_bytes(v).len())),
    decreases v,
{
    lemma_vlq_group_bound(k);
    assert(s[i] == vlq_bytes(v)[0]);
    if v >= 128 {
        let rest = vlq_bytes(v / 128);
        assert(vlq_bytes(v) == seq![(v % 128 + 128) as u8] + rest);
        assert(k < 9);
        assert(has_prefix_at(s, i + 1, rest)) by {
            assert(vlq_bytes(v).subrange(1, vlq_bytes(v).len() as int) =~= rest);
            assert(s.subrange(i + 1, i + 1 + rest.len()) =~= s.subrange(
                i,
                i + vlq_bytes(v).len(),
            ).subrange(1, vlq_bytes(v).len() as int));
        }
        lemma_vlq_roundtrip_from(v / 128, s, i + 1, k + 1);
    }
}

/// Law: reading a VLQ where one was pushed gives back the pushed value, and moves past exactly
/// its bytes, whatever precedes or follows.
pub proof fn lemma_vlq_read_after_push(prefix: Seq<u8>, v: u64, suffix: Seq<u8>)
    ensures
        spec_vlq(prefix + vlq_bytes(v as nat) + suffix, prefix.len()) == Ok::<(u64, nat), ParseError>(
            (v, prefix.len() + vlq_bytes(v as nat).len()),
        ),
{
    let s = prefix + vlq_bytes(v as nat) + suffix;
    lemma_vlq_group_bound(0);
    assert(s.subrange(
        prefix.len() as int,
        (prefix.len() + vlq_bytes(v as nat).len()) as int,
    ) =~= vlq_bytes(v as nat));
    lemma_vlq_roundtrip_from(v as nat, s, prefix.len() as int, 0);
}

/// Law: zigzag decoding undoes zigzag encoding, for every signed 64-bit value.
pub proof fn lemma_zigzag_decode_encode(v: i64)
    ensures
        zigzag_decode(zigzag_encode(v as int)) == v,
        0 <= zigzag_encode(v as int) <= u64::MAX,
{
}

/// Law: zigzag encoding undoes zigzag decoding, for every unsigned 64-bit value.
pub proof fn lemma_zigzag_encode_decode(u: u64)
    ensures
        zigzag_encode(zigzag_decode(u as int)) == u,
        i64::MIN <= zigzag_decode(u as int) <= i64::MAX,
{
}

/// Law: reading a zigzag-encoded VLQ where one was pushed gives back the pushed value.
pub proof fn lemma_zigzag_vlq_read_after_push(prefix: Seq<u8>, v: i64, suffix: Seq<u8>)
    ensures
        spec_zigzag_vlq(prefix + zigzag_vlq_bytes(v as int) + suffix, prefix.len()) == Ok::<
            (i64, nat),
            ParseError,
        >((v, prefix.len() + zigzag_vlq_bytes(v as int).len())),
{
    lemma_zigzag_decode_encode(v);
    let u = zigzag_encode(v as int) as u64;
    lemma_vlq_read_after_push(prefix, u, suffix);
}

/// Constant bytes that were pushed are found where they were pushed.
pub proof fn lemma_const_after_push(prefix: Seq<u8>, c: Seq<u8>, suffix: Seq<u8>)
    ensures
        has_prefix_at(prefix + c + suffix, prefix.len() as int, c),
        spec_const(prefix + c + suffix, prefix.len(), c) == Ok::<((), nat), ParseError>(
            ((), prefix.len() + c.len()),
        ),
{
    assert((prefix + c + suffix).subrange(prefix.len() as int, (prefix.len() + c.len()) as int) =~= c);
}

/// Constant bytes aren't found where a byte follows that differs from their first one.
pub proof fn lemma_no_const_before(prefix: Seq<u8>, c: Seq<u8>, suffix: Seq<u8>)
    requires
        c.len() > 0,
        suffix.len() > 0,
        suffix[0] != c[0],
    ensures
        !has_prefix_at(prefix + suffix, prefix.len() as int, c),
{
    let s = prefix + suffix;
    if has_prefix_at(s, prefix.len() as int, c) {
        assert(s.subrange(prefix.len() as int, (prefix.len() + c.len()) as int)[0] == s[prefix.len() as int]);
    }
}

/// A zero byte that was pushed is found where it was pushed.
pub proof fn lemma_zero_after_push(prefix: Seq<u8>, suffix: Seq<u8>)
    ensures
        spec_zero(prefix + seq![0u8] + suffix, prefix.len()) == Ok::<((), nat), ParseError>(
            ((), prefix.len() + 1),
        ),
{
    assert((prefix + seq![0u8] + suffix)[prefix.len() as int] == 0);
}

// ---------------------------------------------------------------------------------------------
// The byte sequence.
// ---------------------------------------------------------------------------------------------

/// A growable byte sequence with a read cursor.
#[derive(Debug)]
pub struct ByteSeq {
    bytes: Vec<u8>,
    read_index: usize,
}

impl ByteSeq {
    /// The bytes of the sequence.
    pub closed spec fn data(self) -> Seq<u8> {
        self.bytes@
    }

    /// The position of the read cursor.
    pub closed spec fn pos(self) -> nat {
        self.read_index as nat
    }

    /// The read cursor stands within the bytes or at their end.
    #[verifier::type_invariant]
    pub open spec fn inv(self) -> bool {
        self.pos() <= self.data().len()
    }

    pub fn new() -> (r: Self)
        ensures
            r.data() == Seq::<u8>::empty(),
            r.pos() == 0,
    {
        Self { bytes: Vec::new(), read_index: 0 }
    }

    pub fn with_capacity(capacity: usize) -> (r: Self)
        ensures
            r.data() == Seq::<u8>::empty(),
            r.pos() == 0,
    {
        Self { bytes: Vec::with_capacity(capacity), read_index: 0 }
    }

    pub fn from_bytes(bytes: Vec<u8>) -> (r: Self)
        ensures
            r.data() == bytes@,
            r.pos() == 0,
    {
        Self { bytes, read_index: 0 }
    }

    pub fn as_slice(&self) -> (r: &[u8])
        ensures
            r@ == self.data(),
    {
        self.bytes.as_slice()
    }

    pub fn read_index(&self) -> (r: usize)
        ensures
            r == self.pos(),
            r <= self.data().len(),
    {
        proof {
            use_type_invariant(&*self);
        }
        self.read_index
    }

    pub fn len(&self) -> (r: usize)
        ensures
            r == self.data().len(),
    {
        self.bytes.len()
    }

    pub fn num_bytes_left(&self) -> (r: usize)
        ensures
            r == self.data().len() - self.pos(),
    {
        proof {
            use_type_invariant(&*self);
        }
        self.bytes.len() - self.read_index
    }

    /// Moves the cursor to `index`, if that is within the bytes or at their end.
    pub fn seek(&mut self, index: usize) -> (r: bool)
        ensures
            final(self).data() == old(self).data(),
            r == (index <= old(self).data().len()),
            final(self).pos() == if r {
                index as nat
            } else {
                old(self).pos()
            },
    {
        if index <= self.bytes.len() {
            self.read_index = index;
            true
        } else {
            false
        }
    }

    /// Moves the cursor forward by `num_bytes`, if it stays within the bytes or at their end.
    pub fn seek_by(&mut self, num_bytes: usize) -> (r: bool)
        requires
            old(self).pos() + num_bytes <= usize::MAX,
        ensures
            final(self).data() == old(self).data(),
            r == (old(self).pos() + num_bytes <= old(self).data().len()),
            final(self).pos() == if r {
                (old(self).pos() + num_bytes) as nat
            } else {
                old(self).pos()
            },
    {
        self.seek(self.read_index + num_bytes)
    }

    /// Moves past the constant bytes `c`, if they follow the cursor.
    pub fn assert_const(&mut self, c: &[u8]) -> (r: Result<(), ParseError>)
        ensures
            final(self).data() == old(self).data(),
            final(self).pos() <= final(self).data().len(),
            spec_const(old(self).data(), old(self).pos(), c@) == match r {
                Ok(v) => Ok((v, final(self).pos())),
                Err(e) => Err(e),
            },
            r is Err ==> final(self).pos() == old(self).pos(),
    {
        proof {
            use_type_invariant(&*self);
        }
        let start = self.read_index;
        let n = c.len();
        if n > self.bytes.len() - start {
            return Err(ParseError::ExpectedConst(start));
        }
        let mut j: usize = 0;
        while j < n
            invariant
                start + n <= self.bytes.len(),
                start == self.read_index,
                n == c@.len(),
                j <= n,
                forall|t: int| 0 <= t < j ==> self.bytes@[start + t] == c@[t],
            decreases n - j,
        {
            if self.bytes[start + j] != c[j] {
                assert(self.bytes@.subrange(start as int, start + n)[j as int] != c@[j as int]);
                return Err(ParseError::ExpectedConst(start));
            }
            j = j + 1;
        }
        assert(self.bytes@.subrange(start as int, start + n) =~= c@);
        self.read_index = start + n;
        Ok(())
    }

    /// Takes the bytes and the cursor out, leaving an empty sequence behind.
    fn take_parts(&mut self) -> (r: (Vec<u8>, usize))
        ensures
            r.0@ == old(self).data(),
            r.1 == old(self).pos(),
            r.1 <= r.0@.len(),
    {
        let mut taken = ByteSeq::new();
        std::mem::swap(&mut taken, self);
        proof {
            use_type_invariant(&taken);
        }
        let ByteSeq { bytes, read_index } = taken;
        (bytes, read_index)
    }

    pub fn push_const(&mut self, c: &[u8])
        ensures
            final(self).data() == old(self).data() + c@,
            final(self).pos() == old(self).pos(),
    {
        let (mut bytes, read_index) = self.take_parts();
        let mut j: usize = 0;
        while j < c.len()
            invariant
                j <= c@.len(),
                bytes@ == old(self).data() + c@.subrange(0, j as int),
                read_index == old(self).pos(),
                read_index <= old(self).data().len(),
            decreases c@.len() - j,
        {
            bytes.push(c[j]);
            j = j + 1;
            assert(c@.subrange(0, j as int) =~= c@.subrange(0, j - 1) + seq![c@[j - 1]]);
        }
        assert(c@.subrange(0, c@.len() as int) =~= c@);
        *self = ByteSeq { bytes, read_index };
    }

    /// Moves past a zero byte, if one follows the cursor.
    pub fn assert_zero(&mut self) -> (r: Result<(), ParseError>)
        ensures
            final(self).data() == old(self).data(),
            final(self).pos() <= final(self).data().len(),
            spec_zero(old(self).data(), old(self).pos()) == match r {
                Ok(v) => Ok((v, final(self).pos())),
                Err(e) => Err(e),
            },
            r is Err ==> final(self).pos() == old(self).pos(),
    {
        proof {
            use_type_invariant(&*self);
        }
        if self.read_index < self.bytes.len() && self.bytes[self.read_index] == 0 {
            self.read_index = self.read_index + 1;
            Ok(())
        } else {
            Err(ParseError::ExpectedZero(self.read_index))
        }
    }

    pub fn push_zero(&mut self)
        ensures
            final(self).data() == old(self).data().push(0),
            final(self).pos() == old(self).pos(),
    {
        let (mut bytes, read_index) = self.take_parts();
        bytes.push(0);
        *self = ByteSeq { bytes, read_index };
    }

    /// Reads a single-byte integer. (Registry values use little endian, and the format only has
    /// single-byte fixed-width integers.)
    pub fn read_int(&mut self) -> (r: Result<u8, ParseError>)
        ensures
            final(self).data() == old(self).data(),
            final(self).pos() <= final(self).data().len(),
            spec_int(old(self).data(), old(self).pos()) == match r {
                Ok(v) => Ok((v, final(self).pos())),
                Err(e) => Err(e),
            },
            r is Err ==> final(self).pos() == old(self).pos(),
    {
        proof {
            use_type_invariant(&*self);
        }
        let _len = self.bytes.len();
        if let Some((value, size)) = self.get_int(self.read_index) {
            self.read_index = self.read_index + size;
            Ok(value)
        } else {
            Err(ParseError::ExpectedInt(self.read_index))
        }
    }

    fn get_int(&self, index: usize) -> (r: Option<(u8, usize)>)
        requires
            index <= self.data().len(),
        ensures
            r == if index < self.data().len() {
                Some((self.data()[index as int], 1usize))
            } else {
                None::<(u8, usize)>
            },
    {
        let rest = vstd::slice::slice_subrange(self.bytes.as_slice(), index, self.bytes.len());
        match u8_read_from_prefix(rest) {
            Some(value) => Some((value, 1)),
            None => None,
        }
    }

    pub fn push_int(&mut self, value: u8)
        ensures
            final(self).data() == old(self).data().push(value),
            final(self).pos() == old(self).pos(),
    {
        let bytes = u8_as_bytes(&value);
        self.push_const(bytes);
        assert(seq![value] =~= old(self).data().push(value).subrange(
            old(self).data().len() as int,
            old(self).data().len() + 1 as int,
        ));
        assert(old(self).data() + seq![value] =~= old(self).data().push(value));
    }

    /// Reads a VLQ with up to 64 data bits.
    pub fn read_vlq_64(&mut self) -> (r: Result<u64, ParseError>)
        ensures
            final(self).data() == old(self).data(),
            final(self).pos() <= final(self).data().len(),
            spec_vlq(old(self).data(), old(self).pos()) == match r {
                Ok(v) => Ok((v, final(self).pos())),
                Err(e) => Err(e),
            },
            r is Err ==> final(self).pos() == old(self).pos(),
    {
        proof {
            use_type_invariant(&*self);
        }
        let _len = self.bytes.len();
        if let Some((value, size)) = self.get_vlq_64(self.read_index) {
            self.read_index = self.read_index + size;
            Ok(value)
        } else {
            Err(ParseError::ExpectedVlq64(self.read_index))
        }
    }

    fn get_vlq_64(&self, start_index: usize) -> (r: Option<(u64, usize)>)
        requires
            start_index <= self.data().len(),
        ensures
            match r {
                Some((v, n)) => vlq_get(self.data(), start_index as int, 0) == Some(
                    (v as nat, n as nat),
                ) && start_index + n <= self.data().len(),
                None => vlq_get(self.data(), start_index as int, 0) is None,
            },
    {
        let ghost s = self.bytes@;
        let mut value: u64 = 0;
        let mut index = start_index;
        let mut group: u64 = 0;
        let mut mult: u64 = 1;
        proof {
            lemma_pow128_values(0);
            reveal_with_fuel(pow128, 1);
        }
        loop
            invariant
                s == self.bytes@,
                start_index <= index <= s.len(),
                index - start_index == group,
                group <= 9,
                mult == pow128(group as nat),
                value < mult,
                vlq_get(s, start_index as int, 0) == match vlq_get(s, index as int, group as nat) {
                    Some((v, n)) => Some(((value + mult * v) as nat, (n + group) as nat)),
                    None => None::<(nat, nat)>,
                },
            decreases s.len() - index,
        {
            proof {
                lemma_pow128_values(group as nat);
            }
            if index >= self.bytes.len() {
                // No concluding byte - not VLQ.
                return None;
            }
            let byte = self.bytes[index];
            if group == 9 && byte >= 2 {
                // Bits other than the lowest one would overflow 64 bits.
                return None;
            }
            let low = (byte % 128) as u64;
            assert(value + low * mult < 128 * mult) by (nonlinear_arith)
                requires
                    value < mult,
                    low < 128,
            ;
            assert(group == 9 ==> low <= 1);
            assert(low * mult <= 127 * mult) by (nonlinear_arith)
                requires
                    low <= 127,
            ;
            assert(group == 9 ==> low * mult <= mult) by (nonlinear_arith)
                requires
                    group == 9 ==> low <= 1,
            ;
            let new_value = value + low * mult;
            index = index + 1;
            if byte < 128 {
                // Concluding byte - done.
                assert(vlq_get(s, (index - 1) as int, group as nat) == Some(
                    (byte as nat, 1nat),
                ));
                assert(mult * byte == low * mult) by (nonlinear_arith)
                    requires
                        low == byte,
                ;
                return Some((new_value, index - start_index));
            }
            assert(group < 9);
            proof {
                let rest = vlq_get(s, index as int, (group + 1) as nat);
                if let Some((v, n)) = rest {
                    assert(value + mult * ((byte - 128) as nat + 128 * v) == new_value + (mult
                        * 128) * v) by (nonlinear_arith)
                        requires
                            new_value == value + low * mult,
                            low == byte - 128,
                    ;
                }
                lemma_pow128_values((group + 1) as nat);
            }
            value = new_value;
            mult = mult * 128;
            group = group + 1;
        }
    }

    /// Pushes the shortest VLQ encoding of `value`.
    pub fn push_vlq_64(&mut self, value: u64)
        ensures
            final(self).data() == old(self).data() + vlq_bytes(value as nat),
            final(self).pos() == old(self).pos(),
    {
        let (mut bytes, read_index) = self.take_parts();
        let mut value = value;
        let ghost orig = value;
        loop
            invariant_except_break
                bytes@ + vlq_bytes(value as nat) == old(self).data() + vlq_bytes(orig as nat),
            invariant
                read_index == old(self).pos(),
                read_index <= old(self).data().len(),
            ensures
                bytes@ == old(self).data() + vlq_bytes(orig as nat),
            decreases value,
        {
            let byte = (value % 128) as u8;
            let ghost before = value;
            value = value / 128;
            if value != 0 {
                // One or more bytes will follow. Set continuation bit.
                bytes.push(byte + 128);
                assert(vlq_bytes(before as nat) == seq![(byte + 128) as u8] + vlq_bytes(
                    value as nat,
                ));
                assert(bytes@ + vlq_bytes(value as nat) =~= old(self).data() + vlq_bytes(
                    orig as nat,
                ));
            } else {
                bytes.push(byte);
                assert(vlq_bytes(before as nat) == seq![byte]);
                assert(bytes@ =~= old(self).data() + vlq_bytes(orig as nat));
                break ;
            }
        }
        *self = ByteSeq { bytes, read_index };
    }

    /// Reads a zigzag-encoded VLQ with up to 64 data bits.
    pub fn read_zigzag_vlq_64(&mut self) -> (r: Result<i64, ParseError>)
        ensures
            final(self).data() == old(self).data(),
            final(self).pos() <= final(self).data().len(),
            spec_zigzag_vlq(old(self).data(), old(self).pos()) == match r {
                Ok(v) => Ok((v, final(self).pos())),
                Err(e) => Err(e),
            },
            r is Err ==> final(self).pos() == old(self).pos(),
    {
        proof {
            use_type_invariant(&*self);
        }
        let _len = self.bytes.len();
        if let Some((value, size)) = self.get_zigzag_vlq_64(self.read_index) {
            self.read_index = self.read_index + size;
            Ok(value)
        } else {
            Err(ParseError::ExpectedVlq64(self.read_index))
        }
    }

    fn get_zigzag_vlq_64(&self, start_index: usize) -> (r: Option<(i64, usize)>)
        requires
            start_index <= self.data().len(),
        ensures
            match r {
                Some((v, n)) => (vlq_get(self.data(), start_index as int, 0) matches Some(
                    (u, m),
                ) && m == n && v == zigzag_decode(u as int)) && start_index + n <= self.data().len(),
                None => vlq_get(self.data(), start_index as int, 0) is None,
            },
    {
        match self.get_vlq_64(start_index) {
            Some((value, size)) => Some((Self::zigzag_64_decode(value), size)),
            None => None,
        }
    }

    pub fn push_zigzag_vlq_64(&mut self, value: i64)
        ensures
            final(self).data() == old(self).data() + zigzag_vlq_bytes(value as int),
            final(self).pos() == old(self).pos(),
    {
        self.push_vlq_64(Self::zigzag_64_encode(value));
    }

    /// Performs zigzag decoding on an unsigned integer to retrieve the signed integer it encodes.
    fn zigzag_64_decode(encoded: u64) -> (r: i64)
        ensures
            r == zigzag_decode(encoded as int),
    {
        let data_bits = (encoded / 2) as i64;
        if encoded % 2 != 0 {
            -data_bits - 1
        } else {
            data_bits
        }
    }

    fn zigzag_64_encode(value: i64) -> (r: u64)
        ensures
            r == zigzag_encode(value as int),
    {
        if value >= 0 {
            (value as u64) * 2
        } else {
            (-(value + 1)) as u64 * 2 + 1
        }
    }

    pub fn exhausted(&self) -> (r: bool)
        ensures
            r == (self.pos() >= self.data().len()),
    {
        self.read_index >= self.bytes.len()
    }

    pub fn assert_exhausted(&self) -> (r: Result<(), ParseError>)
        ensures
            spec_exhausted(self.data(), self.pos()) == match r {
                Ok(v) => Ok((v, self.pos())),
                Err(e) => Err(e),
            },
    {
        if self.exhausted() {
            Ok(())
        } else {
            Err(ParseError::DataAfterExpectedEnd)
        }
    }

    /// Appends the bytes of `other`.
    pub fn extend(&mut self, other: &Self)
        ensures
            final(self).data() == old(self).data() + other.data(),
            final(self).pos() == old(self).pos(),
    {
        self.push_const(other.bytes.as_slice());
    }

    /// The bytes, leaving the cursor behind.
    pub fn into_bytes(self) -> (r: Vec<u8>)
        ensures
            r@ == self.data(),
    {
        self.bytes
    }
}

impl From<ByteSeq> for Vec<u8> {
    fn from(value: ByteSeq) -> (r: Vec<u8>)
        ensures
            r@ == value.data(),
    {
        value.bytes
    }
}

impl FromSpecImpl<ByteSeq> for Vec<u8> {
    open spec fn obeys_from_spec() -> bool {
        true
    }

    closed spec fn from_spec(v: ByteSeq) -> Vec<u8> {
        v.bytes
    }
}

/// `zerocopy::FromBytes::read_from_prefix` for `u8`: reads a `u8` from the first
/// `size_of::<u8>()` (one) bytes, or returns `None` if there are fewer.
#[verifier::external_body]
fn u8_read_from_prefix(bytes: &[u8]) -> (r: Option<u8>)
    ensures
        r == if bytes@.len() >= 1 {
            Some(bytes@[0])
        } else {
            None::<u8>
        },
{
    <u8 as zerocopy::FromBytes>::read_from_prefix(bytes)
}

/// `zerocopy::AsBytes::as_bytes` for `u8`: the one byte that represents the value.
#[verifier::external_body]
fn u8_as_bytes(value: &u8) -> (r: &[u8])
    ensures
        r@ == seq![*value],
{
    <u8 as zerocopy::AsBytes>::as_bytes(value)
}

} // verus!
