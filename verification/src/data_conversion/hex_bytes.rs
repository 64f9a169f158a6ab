//! Bytes shown as hexadecimal pairs, possibly colored by their difference to older bytes.

use vstd::prelude::*;
use vstd::string::StringExecFns;

use super::format::push_char;

verus! {

/// A fragment of a computed diff of bytes.
#[derive(Clone, Copy, PartialEq, Eq, Structural, Debug)]
pub enum DiffFragment {
    /// A byte that only exists in the left (old) input.
    Left(u8),
    /// A byte that exists in both inputs.
    Both(u8, u8),
    /// A byte that only exists in the right (new) input.
    Right(u8),
}

/// The diff that `diff::slice` computes between `left` and `right`.
pub uninterp spec fn byte_diff(left: Seq<u8>, right: Seq<u8>) -> Seq<DiffFragment>;

/// The bytes of the left input that a diff holds, in order.
pub open spec fn diff_lefts(d: Seq<DiffFragment>) -> Seq<u8>
    decreases d.len(),
{
    if d.len() == 0 {
        Seq::empty()
    } else {
        diff_lefts(d.drop_last()) + match d.last() {
            DiffFragment::Left(b) => seq![b],
            DiffFragment::Both(b, _) => seq![b],
            DiffFragment::Right(_) => Seq::empty(),
        }
    }
}

/// The bytes of the right input that a diff holds, in order.
pub open spec fn diff_rights(d: Seq<DiffFragment>) -> Seq<u8>
    decreases d.len(),
{
    if d.len() == 0 {
        Seq::empty()
    } else {
        diff_rights(d.drop_last()) + match d.last() {
            DiffFragment::Left(_) => Seq::empty(),
            DiffFragment::Both(_, b) => seq![b],
            DiffFragment::Right(b) => seq![b],
        }
    }
}

/// `diff::slice(left, right)`: the diff of the two byte slices, as fragments in order. Besides
/// naming the result, it is stated that the fragments hold all bytes of `left` (as `Left` and
/// `Both` fragments) and all bytes of `right` (as `Right` and `Both` fragments), each in order,
/// as the function's traversal of both slices shows, and that equal slices give only `Both`
/// fragments (their common prefix is the whole of them).
#[verifier::external_body]
fn diff_slices(left: &[u8], right: &[u8]) -> (r: Vec<DiffFragment>)
    ensures
        r@ == byte_diff(left@, right@),
        diff_lefts(r@) == left@,
        diff_rights(r@) == right@,
        left@ == right@ ==> forall|i: int| 0 <= i < r@.len() ==> r@[i] is Both,
{
    diff::slice(left, right).into_iter().map(
        |fragment| match fragment {
            diff::Result::Left(byte) => DiffFragment::Left(*byte),
            diff::Result::Both(left, right) => DiffFragment::Both(*left, *right),
            diff::Result::Right(byte) => DiffFragment::Right(*byte),
        },
    ).collect()
}

/// Terminal colors.
#[derive(Clone, Copy, PartialEq, Eq, Structural, Debug)]
pub enum Color {
    Default,
    BrightRed,
    BrightGreen,
}

/// The ANSI escape sequence that switches to a color.
pub open spec fn color_code(color: Color) -> Seq<char> {
    match color {
        Color::Default => seq!['\x1b', '[', '0', 'm'],
        Color::BrightRed => seq!['\x1b', '[', '9', '1', 'm'],
        Color::BrightGreen => seq!['\x1b', '[', '9', '2', 'm'],
    }
}

impl Color {
    /// The ANSI escape sequence that switches to the color. See
    /// <https://chrisyeh96.github.io/2020/03/28/terminal-colors.html>.
    pub fn code(&self) -> (r: &'static str)
        ensures
            r@ == color_code(*self),
    {
        match self {
            Color::Default => {
                proof {
                    reveal_strlit("\x1b[0m");
                }
                "\x1b[0m"
            },
            Color::BrightRed => {
                proof {
                    reveal_strlit("\x1b[91m");
                }
                "\x1b[91m"
            },
            Color::BrightGreen => {
                proof {
                    reveal_strlit("\x1b[92m");
                }
                "\x1b[92m"
            },
        }
    }
}

/// The lowercase hexadecimal digit of a value below 16.
pub open spec fn hex_digit(n: u8) -> char {
    if n < 10 {
        (48 + n) as char
    } else {
        (87 + n) as char
    }
}

/// A byte as two lowercase hexadecimal digits.
pub open spec fn hex_pair(b: u8) -> Seq<char> {
    seq![hex_digit(b / 16), hex_digit(b % 16)]
}

/// A byte as shown after other bytes (with a separating space) or as the first.
pub open spec fn shown_byte(b: u8, first: bool) -> Seq<char> {
    if first {
        hex_pair(b)
    } else {
        seq![' '] + hex_pair(b)
    }
}

/// The bytes from position `i` on, as hexadecimal pairs separated by spaces.
pub open spec fn plain_text(bytes: Seq<u8>, i: nat) -> Seq<char>
    decreases bytes.len() - i,
{
    if i >= bytes.len() {
        Seq::empty()
    } else {
        shown_byte(bytes[i as int], i == 0) + plain_text(bytes, i + 1)
    }
}

/// The byte a diff fragment shows and its color.
pub open spec fn fragment_byte_color(fragment: DiffFragment) -> (u8, Color) {
    match fragment {
        DiffFragment::Left(b) => (b, Color::BrightRed),
        DiffFragment::Right(b) => (b, Color::BrightGreen),
        DiffFragment::Both(b, _) => (b, Color::Default),
    }
}

/// The fragments from position `i` on, each switching the color where it changes, the last
/// switching back to the default color.
pub open spec fn diff_text(d: Seq<DiffFragment>, i: nat, color: Color) -> Seq<char>
    decreases d.len() - i,
{
    if i >= d.len() {
        if color != Color::Default {
            color_code(Color::Default)
        } else {
            Seq::empty()
        }
    } else {
        let (b, c) = fragment_byte_color(d[i as int]);
        (if c != color {
            color_code(c)
        } else {
            Seq::empty()
        }) + shown_byte(b, i == 0) + diff_text(d, i + 1, c)
    }
}

/// The text of bytes, colored by their diff against `old_bytes` if there are such.
pub open spec fn hex_bytes_text(bytes: Seq<u8>, old_bytes: Option<Seq<u8>>) -> Seq<char> {
    match old_bytes {
        None => plain_text(bytes, 0),
        Some(old) => color_code(Color::Default) + diff_text(byte_diff(old, bytes), 0, Color::Default),
    }
}

/// The left bytes of a diff made only of `Both` fragments are theirs, one for each.
proof fn lemma_diff_lefts_of_both(d: Seq<DiffFragment>)
    requires
        forall|i: int| 0 <= i < d.len() ==> d[i] is Both,
    ensures
        diff_lefts(d).len() == d.len(),
        forall|i: int| 0 <= i < d.len() ==> diff_lefts(d)[i] == fragment_byte_color(d[i]).0,
    decreases d.len(),
{
    if d.len() > 0 {
        lemma_diff_lefts_of_both(d.drop_last());
        assert forall|i: int| 0 <= i < d.len() implies diff_lefts(d)[i] == fragment_byte_color(
            d[i],
        ).0 by {
            if i < d.len() - 1 {
                assert(d.drop_last()[i] == d[i]);
            }
        }
    }
}

/// A diff made only of `Both` fragments shows, from position `i` on, as the plain text of its
/// bytes.
proof fn lemma_diff_text_of_both(d: Seq<DiffFragment>, bytes: Seq<u8>, i: nat)
    requires
        forall|j: int| 0 <= j < d.len() ==> d[j] is Both,
        bytes.len() == d.len(),
        forall|j: int| 0 <= j < d.len() ==> bytes[j] == fragment_byte_color(d[j]).0,
    ensures
        diff_text(d, i, Color::Default) == plain_text(bytes, i),
    decreases d.len() - i,
{
    if i < d.len() {
        lemma_diff_text_of_both(d, bytes, i + 1);
        assert(Seq::<char>::empty() + shown_byte(bytes[i as int], i == 0) =~= shown_byte(
            bytes[i as int],
            i == 0,
        ));
    }
}

/// Bytes whose diff against themselves holds only `Both` fragments show without color.
proof fn lemma_equal_bytes_uncolored(bytes: Seq<u8>)
    requires
        forall|i: int| 0 <= i < byte_diff(bytes, bytes).len() ==> byte_diff(bytes, bytes)[i] is Both,
        diff_lefts(byte_diff(bytes, bytes)) == bytes,
    ensures
        hex_bytes_text(bytes, Some(bytes)) == color_code(Color::Default) + plain_text(bytes, 0),
{
    let d = byte_diff(bytes, bytes);
    lemma_diff_lefts_of_both(d);
    lemma_diff_text_of_both(d, bytes, 0);
}

/// Appends a byte as two hexadecimal digits, after a space unless it is the first.
fn push_byte(s: &mut String, b: u8, first: bool)
    ensures
        final(s)@ == old(s)@ + shown_byte(b, first),
{
    if !first {
        push_char(s, ' ');
    }
    let high = b / 16;
    let low = b % 16;
    push_char(s, if high < 10 { (48 + high) as char } else { (87 + high) as char });
    push_char(s, if low < 10 { (48 + low) as char } else { (87 + low) as char });
    assert(final(s)@ =~= old(s)@ + shown_byte(b, first)) by {
        if first {
            assert(s@ =~= old(s)@ + hex_pair(b));
        } else {
            assert(s@ =~= old(s)@ + seq![' '] + hex_pair(b));
        }
    }
}

/// The text of a diff: each byte as a hexadecimal pair, the removed ones (`Left`) in bright
/// red, the added ones (`Right`) in bright green and the kept ones in the default color, which
/// the text starts with and, after a colored byte, ends with.
pub fn diff_fragments_text(fragments: &[DiffFragment]) -> (r: String)
    ensures
        r@ == color_code(Color::Default) + diff_text(fragments@, 0, Color::Default),
{
    let ghost d = fragments@;
    let mut string = String::new();
    let mut current_color = Color::Default;
    string.append(current_color.code());
    let n = fragments.len();
    let mut i: usize = 0;
    while i < n
        invariant
            i <= n,
            n == d.len(),
            d == fragments@,
            string@ + diff_text(d, i as nat, current_color) == color_code(Color::Default)
                + diff_text(d, 0, Color::Default),
        decreases n - i,
    {
        let ghost before = string@;
        let ghost color_before = current_color;
        let (byte, byte_color) = match fragments[i] {
            DiffFragment::Left(byte) => (byte, Color::BrightRed),
            DiffFragment::Right(byte) => (byte, Color::BrightGreen),
            DiffFragment::Both(byte, _) => (byte, Color::Default),
        };
        if byte_color != current_color {
            string.append(byte_color.code());
            current_color = byte_color;
        }
        push_byte(&mut string, byte, i == 0);
        assert(string@ + diff_text(d, (i + 1) as nat, current_color) =~= before + diff_text(
            d,
            i as nat,
            color_before,
        ));
        i = i + 1;
    }
    if current_color != Color::Default {
        string.append(Color::Default.code());
    }
    assert(string@ =~= color_code(Color::Default) + diff_text(d, 0, Color::Default));
    string
}

/// Bytes to be shown as hexadecimal pairs, possibly colored by their difference to older bytes.
pub struct HexBytes<'a> {
    bytes: &'a [u8],
    old_bytes: Option<&'a [u8]>,
}

impl<'a> HexBytes<'a> {
    /// The bytes shown.
    pub closed spec fn spec_bytes(self) -> Seq<u8> {
        self.bytes@
    }

    /// The older bytes that the shown bytes are compared with, if any.
    pub closed spec fn spec_old_bytes(self) -> Option<Seq<u8>> {
        match self.old_bytes {
            Some(old) => Some(old@),
            None => None,
        }
    }

    pub fn new(bytes: &'a [u8]) -> (r: Self)
        ensures
            r.spec_bytes() == bytes@,
            r.spec_old_bytes() is None,
    {
        Self { bytes, old_bytes: None }
    }

    /// Compares with `old_bytes`. This will introduce ANSI escape sequences in the output to
    /// color it.
    pub fn diff_against(self, old_bytes: &'a [u8]) -> (r: Self)
        ensures
            r.spec_bytes() == self.spec_bytes(),
            r.spec_old_bytes() == Some(old_bytes@),
    {
        Self { bytes: self.bytes, old_bytes: Some(old_bytes) }
    }

    /// The bytes as hexadecimal pairs separated by spaces; when compared with older bytes, the
    /// removed ones in bright red and the added ones in bright green.
    pub fn to_string(&self) -> (r: String)
        ensures
            r@ == hex_bytes_text(self.spec_bytes(), self.spec_old_bytes()),
            self.spec_old_bytes() == Some(self.spec_bytes()) ==> r@ == color_code(Color::Default)
                + plain_text(self.spec_bytes(), 0),
    {
        let mut string = String::new();
        match self.old_bytes {
            None => {
                let n = self.bytes.len();
                let mut i: usize = 0;
                while i < n
                    invariant
                        i <= n,
                        n == self.bytes@.len(),
                        string@ + plain_text(self.bytes@, i as nat) == plain_text(self.bytes@, 0),
                    decreases n - i,
                {
                    let ghost before = string@;
                    push_byte(&mut string, self.bytes[i], i == 0);
                    assert(string@ + plain_text(self.bytes@, (i + 1) as nat) =~= before
                        + plain_text(self.bytes@, i as nat));
                    i = i + 1;
                }
                assert(string@ =~= string@ + plain_text(self.bytes@, i as nat));
            },
            Some(old_bytes) => {
                let fragments = diff_slices(old_bytes, self.bytes);
                string = diff_fragments_text(fragments.as_slice());
                proof {
                    if old_bytes@ == self.bytes@ {
                        lemma_equal_bytes_uncolored(self.bytes@);
                    }
                }
            },
        }
        string
    }
}

// ---------------------------------------------------------------------------------------------
// Laws.
// ---------------------------------------------------------------------------------------------

/// Whether a text holds no escape character, so no ANSI escape sequence.
pub open spec fn no_escape(s: Seq<char>) -> bool {
    forall|k: int| 0 <= k < s.len() ==> s[k] != '\x1b'
}

/// Whether the escape sequence that switches back to the default color starts at position `k`
/// of a text, and no escape character follows it.
pub open spec fn reset_at(s: Seq<char>, k: int) -> bool {
    &&& 0 <= k
    &&& k + 4 <= s.len()
    &&& s.subrange(k, k + 4) == color_code(Color::Default)
    &&& no_escape(s.subrange(k + 4, s.len() as int))
}

/// Whether the last escape sequence of a text switches back to the default color.
pub open spec fn ends_with_reset(s: Seq<char>) -> bool {
    exists|k: int| #[trigger] reset_at(s, k)
}

/// A byte, shown, holds no escape character.
proof fn lemma_shown_byte_no_escape(b: u8, first: bool)
    ensures
        no_escape(shown_byte(b, first)),
{
    assert(hex_digit(b / 16) != '\x1b');
    assert(hex_digit(b % 16) != '\x1b');
}

/// The plain text of bytes from position `i` on holds no escape character.
proof fn lemma_plain_text_no_escape_from(bytes: Seq<u8>, i: nat)
    ensures
        no_escape(plain_text(bytes, i)),
    decreases bytes.len() - i,
{
    if i < bytes.len() {
        lemma_plain_text_no_escape_from(bytes, i + 1);
        lemma_shown_byte_no_escape(bytes[i as int], i == 0);
    }
}

/// Text without escape characters, put before a text whose last escape sequence is the reset,
/// keeps it so.
proof fn lemma_reset_after_prefix(p: Seq<char>, s: Seq<char>, k: int)
    requires
        reset_at(s, k),
    ensures
        reset_at(p + s, p.len() + k),
{
    let t = p + s;
    assert(t.subrange(p.len() + k, p.len() + k + 4) =~= s.subrange(k, k + 4));
    assert(t.subrange(p.len() + k + 4, t.len() as int) =~= s.subrange(k + 4, s.len() as int));
}

/// Two texts without escape characters make one without.
proof fn lemma_no_escape_concat(a: Seq<char>, b: Seq<char>)
    requires
        no_escape(a),
        no_escape(b),
    ensures
        no_escape(a + b),
{
    assert forall|k: int| 0 <= k < (a + b).len() implies (a + b)[k] != '\x1b' by {
        if k >= a.len() {
            assert((a + b)[k] == b[k - a.len()]);
        }
    }
}

/// The colored text of diff fragments from position `i` on, in the color `color`, ends with the
/// reset to the default color where `color` isn't the default, and otherwise either ends so or
/// holds no escape character at all.
proof fn lemma_diff_text_reset(d: Seq<DiffFragment>, i: nat, color: Color)
    ensures
        color != Color::Default ==> ends_with_reset(diff_text(d, i, color)),
        color == Color::Default ==> no_escape(diff_text(d, i, color)) || ends_with_reset(
            diff_text(d, i, color),
        ),
    decreases d.len() - i,
{
    let text = diff_text(d, i, color);
    let reset = color_code(Color::Default);
    if i >= d.len() {
        if color != Color::Default {
            assert(text.subrange(0, 4) =~= reset);
            assert(text.subrange(4, text.len() as int) =~= Seq::<char>::empty());
            assert(reset_at(text, 0));
        }
    } else {
        let (b, c) = fragment_byte_color(d[i as int]);
        let switch = if c != color {
            color_code(c)
        } else {
            Seq::empty()
        };
        let shown = shown_byte(b, i == 0);
        let rest = diff_text(d, i + 1, c);
        assert(text == switch + shown + rest);
        lemma_diff_text_reset(d, i + 1, c);
        lemma_shown_byte_no_escape(b, i == 0);
        if ends_with_reset(rest) {
            let k = choose|k: int| reset_at(rest, k);
            lemma_reset_after_prefix(switch + shown, rest, k);
            assert(reset_at(text, (switch + shown).len() + k));
        } else {
            assert(c == Color::Default && no_escape(rest));
            lemma_no_escape_concat(shown, rest);
            if color != Color::Default {
                assert(text == reset + (shown + rest));
                assert(text.subrange(0, 4) =~= reset);
                assert(text.subrange(4, text.len() as int) =~= shown + rest);
                assert(reset_at(text, 0));
            } else {
                assert(text =~= shown + rest);
            }
        }
    }
}

/// Law: bytes shown without older bytes to compare with are plain text: no ANSI escape sequence
/// is in it.
pub proof fn lemma_plain_text_uncolored(bytes: Seq<u8>)
    ensures
        no_escape(hex_bytes_text(bytes, None)),
{
    lemma_plain_text_no_escape_from(bytes, 0);
}

/// Law: bytes shown colored by their diff against older bytes start with the reset to the
/// default color, and the last escape sequence in the text is that reset too, so no color
/// leaks into what follows.
pub proof fn lemma_colored_text_resets(bytes: Seq<u8>, old_bytes: Seq<u8>)
    ensures
        hex_bytes_text(bytes, Some(old_bytes)).subrange(0, 4) == color_code(Color::Default),
        ends_with_reset(hex_bytes_text(bytes, Some(old_bytes))),
{
    let reset = color_code(Color::Default);
    let rest = diff_text(byte_diff(old_bytes, bytes), 0, Color::Default);
    let text = hex_bytes_text(bytes, Some(old_bytes));
    assert(text == reset + rest);
    assert(text.subrange(0, 4) =~= reset);
    lemma_diff_text_reset(byte_diff(old_bytes, bytes), 0, Color::Default);
    if ends_with_reset(rest) {
        let k = choose|k: int| reset_at(rest, k);
        lemma_reset_after_prefix(reset, rest, k);
        assert(reset_at(text, 4 + k));
    } else {
        assert(text.subrange(4, text.len() as int) =~= rest);
        assert(reset_at(text, 0));
    }
}

} // verus!
