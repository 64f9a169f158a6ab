//! Registry values: the names of the root keys, the text of `.reg` files exporting binary
//! values, and the WMI query that monitors changes of values.

use vstd::prelude::*;
use vstd::string::StringExecFns;

use crate::data_conversion::format::{push_char, str_chars};
use crate::data_conversion::hex_bytes::{hex_digit, hex_pair};

verus! {

/// A predefined root key of the registry (an `HKEY`).
#[derive(Clone, Copy, PartialEq, Eq, Structural, Debug)]
pub enum Hive {
    ClassesRoot,
    CurrentUser,
    LocalMachine,
    Users,
    PerformanceData,
    PerformanceText,
    PerformanceNlsText,
    CurrentConfig,
    DynData,
    CurrentUserLocalSettings,
}

/// The name of a root key, as `.reg` files and WMI events write it.
pub open spec fn hive_name(hive: Hive) -> Seq<char> {
    match hive {
        Hive::ClassesRoot => "HKEY_CLASSES_ROOT"@,
        Hive::CurrentUser => "HKEY_CURRENT_USER"@,
        Hive::LocalMachine => "HKEY_LOCAL_MACHINE"@,
        Hive::Users => "HKEY_USERS"@,
        Hive::PerformanceData => "HKEY_PERFORMANCE_DATA"@,
        Hive::PerformanceText => "HKEY_PERFORMANCE_TEXT"@,
        Hive::PerformanceNlsText => "HKEY_PERFORMANCE_NLSTEXT"@,
        Hive::CurrentConfig => "HKEY_CURRENT_CONFIG"@,
        Hive::DynData => "HKEY_DYN_DATA"@,
        Hive::CurrentUserLocalSettings => "HKEY_CURRENT_USER_LOCAL_SETTINGS"@,
    }
}

impl Hive {
    /// The name of the root key.
    pub fn name(&self) -> (r: &'static str)
        ensures
            r@ == hive_name(*self),
    {
        match self {
            Hive::ClassesRoot => "HKEY_CLASSES_ROOT",
            Hive::CurrentUser => "HKEY_CURRENT_USER",
            Hive::LocalMachine => "HKEY_LOCAL_MACHINE",
            Hive::Users => "HKEY_USERS",
            Hive::PerformanceData => "HKEY_PERFORMANCE_DATA",
            Hive::PerformanceText => "HKEY_PERFORMANCE_TEXT",
            Hive::PerformanceNlsText => "HKEY_PERFORMANCE_NLSTEXT",
            Hive::CurrentConfig => "HKEY_CURRENT_CONFIG",
            Hive::DynData => "HKEY_DYN_DATA",
            Hive::CurrentUserLocalSettings => "HKEY_CURRENT_USER_LOCAL_SETTINGS",
        }
    }
}

// ---------------------------------------------------------------------------------------------
// Export to `.reg` files.
// ---------------------------------------------------------------------------------------------

/// A binary registry value to export, with its bytes.
pub struct RegExportValue<'a> {
    pub hive: Hive,
    pub subkey_path: &'a str,
    pub value_name: &'a str,
    pub bytes: Vec<u8>,
}

/// Bytes as comma-separated pairs of lowercase hexadecimal digits, from position `i` on.
pub open spec fn hex_list(bytes: Seq<u8>, i: nat) -> Seq<char>
    decreases bytes.len() - i,
{
    if i >= bytes.len() {
        Seq::empty()
    } else {
        (if i == 0 {
            Seq::empty()
        } else {
            seq![',']
        }) + hex_pair(bytes[i as int]) + hex_list(bytes, i + 1)
    }
}

/// The lines of one value in a `.reg` file: the key in brackets, then the value name in quotes
/// with the bytes, and an empty line.
pub open spec fn export_entry_text(hive: Hive, subkey_path: Seq<char>, value_name: Seq<char>, bytes: Seq<u8>) -> Seq<char> {
    seq!['['] + hive_name(hive) + seq!['\\'] + subkey_path + seq![']', '\r', '\n', '"'] + value_name
        + seq!['"', '=', 'h', 'e', 'x', ':'] + hex_list(bytes, 0) + seq!['\r', '\n', '\r', '\n']
}

/// The header of a `.reg` file: a byte order mark, the format's version line and an empty line.
pub open spec fn export_header() -> Seq<char> {
    "\u{feff}Windows Registry Editor Version 5.00\r\n\r\n"@
}

/// The text of the first `k` values.
pub open spec fn export_entries_text(values: Seq<RegExportValue>, k: nat) -> Seq<char>
    decreases k,
{
    if k == 0 || k > values.len() {
        Seq::empty()
    } else {
        let v = values[k - 1];
        export_entries_text(values, (k - 1) as nat) + export_entry_text(
            v.hive,
            v.subkey_path@,
            v.value_name@,
            v.bytes@,
        )
    }
}

/// Appends bytes as comma-separated pairs of lowercase hexadecimal digits.
fn push_hex_list(s: &mut String, bytes: &[u8])
    ensures
        final(s)@ == old(s)@ + hex_list(bytes@, 0),
{
    let n = bytes.len();
    let mut i: usize = 0;
    while i < n
        invariant
            i <= n,
            n == bytes@.len(),
            s@ + hex_list(bytes@, i as nat) == old(s)@ + hex_list(bytes@, 0),
        decreases n - i,
    {
        let ghost before = s@;
        if i > 0 {
            push_char(s, ',');
        }
        let b = bytes[i];
        let high = b / 16;
        let low = b % 16;
        push_char(s, if high < 10 { (48 + high) as char } else { (87 + high) as char });
        push_char(s, if low < 10 { (48 + low) as char } else { (87 + low) as char });
        assert(hex_digit(high) == (if high < 10 { (48 + high) as char } else { (87 + high) as char }));
        assert(s@ + hex_list(bytes@, (i + 1) as nat) =~= before + hex_list(bytes@, i as nat));
        i = i + 1;
    }
    assert(s@ =~= s@ + hex_list(bytes@, i as nat));
}

/// The value of a lowercase hexadecimal digit, or -1 for any other character.
pub open spec fn lowercase_hex_value(c: char) -> int {
    if 48 <= c as int <= 57 {
        c as int - 48
    } else if 97 <= c as int <= 102 {
        c as int - 87
    } else {
        -1
    }
}

/// A byte shown as two hexadecimal digits reads back as the byte.
proof fn lemma_hex_pair_value(b: u8)
    ensures
        hex_pair(b).len() == 2,
        0 <= lowercase_hex_value(hex_pair(b)[0]) && 0 <= lowercase_hex_value(hex_pair(b)[1]),
        lowercase_hex_value(hex_pair(b)[0]) * 16 + lowercase_hex_value(hex_pair(b)[1]) == b,
{
    assert(lowercase_hex_value(hex_digit(b / 16)) == b / 16);
    assert(lowercase_hex_value(hex_digit(b % 16)) == b % 16);
}

/// Whether the two characters at position `k` of a text are lowercase hexadecimal digits that
/// read as the byte `b`.
pub open spec fn hex_pair_at(h: Seq<char>, k: int, b: u8) -> bool {
    &&& 0 <= lowercase_hex_value(h[k])
    &&& 0 <= lowercase_hex_value(h[k + 1])
    &&& lowercase_hex_value(h[k]) * 16 + lowercase_hex_value(h[k + 1]) == b
}

/// Whether a comma stands at position `k` of a text, followed by two lowercase hexadecimal
/// digits that read as the byte `b`.
pub open spec fn hex_entry_at(h: Seq<char>, k: int, b: u8) -> bool {
    h[k] == ',' && hex_pair_at(h, k + 1, b)
}

/// From position `i` on (`i >= 1`), the list holds for each further byte a comma and the byte's
/// two digits.
proof fn lemma_hex_list_tail(bytes: Seq<u8>, i: nat)
    requires
        1 <= i <= bytes.len(),
    ensures
        hex_list(bytes, i).len() == 3 * (bytes.len() - i),
        forall|j: int|
            #![trigger bytes[j]]
            i <= j < bytes.len() ==> hex_entry_at(hex_list(bytes, i), 3 * (j - i), bytes[j]),
    decreases bytes.len() - i,
{
    if i < bytes.len() {
        lemma_hex_list_tail(bytes, i + 1);
        lemma_hex_pair_value(bytes[i as int]);
        let h = hex_list(bytes, i);
        let rest = hex_list(bytes, i + 1);
        let pair = hex_pair(bytes[i as int]);
        let head = seq![','] + pair;
        assert(h == head + rest);
        assert(head.len() == 3);
        assert forall|j: int| #![trigger bytes[j]] i <= j < bytes.len() implies hex_entry_at(
            hex_list(bytes, i),
            3 * (j - i),
            bytes[j],
        ) by {
            if j == i {
                assert(head[0] == ',');
                assert(h[0] == head[0]);
                assert(h[1] == pair[0]);
                assert(h[2] == pair[1]);
            } else {
                let k = 3 * (j - i);
                let k1 = 3 * (j - (i + 1));
                assert(k1 == k - 3);
                let b = bytes[j];
                assert(hex_entry_at(rest, k1, b));
                assert(h[k] == rest[k1]);
                assert(h[k + 1] == rest[k1 + 1]);
                assert(h[k + 2] == rest[k1 + 2]);
            }
        }
    }
}

/// Law: a .reg file lists the bytes of a binary value in order, each as exactly two lowercase
/// hexadecimal digits that read back as the byte, separated by commas and nothing else: the
/// byte at position `j` is shown at positions `3 * j` and `3 * j + 1`, a comma follows all but
/// the last.
pub proof fn lemma_hex_list_shows_each_byte(bytes: Seq<u8>)
    ensures
        bytes.len() == 0 ==> hex_list(bytes, 0).len() == 0,
        bytes.len() > 0 ==> hex_list(bytes, 0).len() == 3 * bytes.len() - 1,
        forall|j: int|
            #![trigger bytes[j]]
            0 <= j < bytes.len() ==> hex_pair_at(hex_list(bytes, 0), 3 * j, bytes[j]) && (j + 1
                < bytes.len() ==> hex_list(bytes, 0)[3 * j + 2] == ','),
{
    if bytes.len() > 0 {
        lemma_hex_list_tail(bytes, 1);
        lemma_hex_pair_value(bytes[0]);
        let h = hex_list(bytes, 0);
        let rest = hex_list(bytes, 1);
        let pair = hex_pair(bytes[0]);
        assert(h == pair + rest);
        assert forall|j: int| #![trigger bytes[j]] 0 <= j < bytes.len() implies hex_pair_at(
            hex_list(bytes, 0),
            3 * j,
            bytes[j],
        ) && (j + 1 < bytes.len() ==> hex_list(bytes, 0)[3 * j + 2] == ',') by {
            if j == 0 {
                assert(h[0] == pair[0]);
                assert(h[1] == pair[1]);
            } else {
                let b = bytes[j];
                assert(hex_entry_at(rest, 3 * (j - 1), b));
                assert(h[3 * j] == rest[3 * (j - 1) + 1]);
                assert(h[3 * j + 1] == rest[3 * (j - 1) + 2]);
            }
            if j + 1 < bytes.len() {
                let b = bytes[j + 1];
                assert(hex_entry_at(rest, 3 * j, b));
                assert(h[3 * j + 2] == rest[3 * j]);
            }
        }
    }
}

/// The text of a `.reg` file (before its encoding as UTF-16LE) that exports the binary values,
/// as `regedit.exe` writes it.
pub fn export_reg_text(values: &[RegExportValue]) -> (r: String)
    ensures
        r@ == export_header() + export_entries_text(values@, values@.len()),
{
    let mut text = String::from_str("\u{feff}Windows Registry Editor Version 5.00\r\n\r\n");
    let n = values.len();
    let mut k: usize = 0;
    while k < n
        invariant
            k <= n,
            n == values@.len(),
            text@ == export_header() + export_entries_text(values@, k as nat),
        decreases n - k,
    {
        let ghost before = text@;
        let value = &values[k];
        push_char(&mut text, '[');
        text.append(value.hive.name());
        push_char(&mut text, '\\');
        text.append(value.subkey_path);
        push_char(&mut text, ']');
        push_char(&mut text, '\r');
        push_char(&mut text, '\n');
        push_char(&mut text, '"');
        text.append(value.value_name);
        push_char(&mut text, '"');
        push_char(&mut text, '=');
        push_char(&mut text, 'h');
        push_char(&mut text, 'e');
        push_char(&mut text, 'x');
        push_char(&mut text, ':');
        push_hex_list(&mut text, value.bytes.as_slice());
        push_char(&mut text, '\r');
        push_char(&mut text, '\n');
        push_char(&mut text, '\r');
        push_char(&mut text, '\n');
        assert(text@ =~= before + export_entry_text(
            value.hive,
            value.subkey_path@,
            value.value_name@,
            value.bytes@,
        ));
        k = k + 1;
    }
    text
}

// ---------------------------------------------------------------------------------------------
// Monitoring.
// ---------------------------------------------------------------------------------------------

/// The registry value that a WMI change event names.
#[derive(Clone, PartialEq, Eq, Hash, Debug)]
pub struct RegValueChange {
    pub hive: String,
    pub key_path: String,
    pub value_name: String,
}

/// The change event that a registry value raises. WMI reports values under `HKEY_CURRENT_USER`
/// under `HKEY_USERS`, below the key named by the user's security identifier
/// (`current_user_sid`).
pub fn expected_reg_value_change(
    hive: Hive,
    subkey_path: &str,
    value_name: &str,
    current_user_sid: &str,
) -> (r: RegValueChange)
    ensures
        r.hive@ == hive_name(
            if hive == Hive::CurrentUser {
                Hive::Users
            } else {
                hive
            },
        ),
        r.key_path@ == if hive == Hive::CurrentUser {
            current_user_sid@ + seq!['\\'] + subkey_path@
        } else {
            subkey_path@
        },
        r.value_name@ == value_name@,
{
    match hive {
        Hive::CurrentUser => {
            let mut key_path = String::from_str(current_user_sid);
            push_char(&mut key_path, '\\');
            key_path.append(subkey_path);
            RegValueChange {
                hive: String::from_str(Hive::Users.name()),
                key_path,
                value_name: String::from_str(value_name),
            }
        },
        _ => RegValueChange {
            hive: String::from_str(hive.name()),
            key_path: String::from_str(subkey_path),
            value_name: String::from_str(value_name),
        },
    }
}

/// A character of a WQL string literal: quotes and backslashes escaped with a backslash.
pub open spec fn wql_escaped_char(c: char) -> Seq<char> {
    if c == '"' {
        seq!['\\', '"']
    } else if c == '\\' {
        seq!['\\', '\\']
    } else {
        seq![c]
    }
}

/// The characters from position `i` on, escaped for a WQL string literal.
pub open spec fn wql_escaped(s: Seq<char>, i: nat) -> Seq<char>
    decreases s.len() - i,
{
    if i >= s.len() {
        Seq::empty()
    } else {
        wql_escaped_char(s[i as int]) + wql_escaped(s, i + 1)
    }
}

/// `s` as a WQL string literal, in double quotes.
pub open spec fn wql_str(s: Seq<char>) -> Seq<char> {
    seq!['"'] + wql_escaped(s, 0) + seq!['"']
}

/// Appends `s` as a WQL string literal: in double quotes, with quotes and backslashes escaped.
/// The same as `wmi::query::quote_and_escape_wql_str`.
fn push_wql_str(out: &mut String, s: &str)
    ensures
        final(out)@ == old(out)@ + wql_str(s@),
{
    let chars = str_chars(s);
    push_char(out, '"');
    let n = chars.len();
    let mut i: usize = 0;
    while i < n
        invariant
            i <= n,
            n == chars@.len(),
            chars@ == s@,
            out@ + wql_escaped(s@, i as nat) + seq!['"'] == old(out)@ + wql_str(s@),
        decreases n - i,
    {
        let ghost before = out@;
        let c = chars[i];
        if c == '"' {
            push_char(out, '\\');
            push_char(out, '"');
        } else if c == '\\' {
            push_char(out, '\\');
            push_char(out, '\\');
        } else {
            push_char(out, c);
        }
        assert(out@ + wql_escaped(s@, (i + 1) as nat) =~= before + wql_escaped(s@, i as nat));
        i = i + 1;
    }
    push_char(out, '"');
    assert(out@ =~= old(out)@ + wql_str(s@));
}

/// The condition that matches one change event.
pub open spec fn wql_condition(change: RegValueChange) -> Seq<char> {
    " Hive="@ + wql_str(change.hive@) + " AND KeyPath="@ + wql_str(change.key_path@)
        + " AND ValueName="@ + wql_str(change.value_name@)
}

/// The conditions of the first `k` change events, joined by `OR`.
pub open spec fn wql_conditions(changes: Seq<RegValueChange>, k: nat) -> Seq<char>
    decreases k,
{
    if k == 0 || k > changes.len() {
        Seq::empty()
    } else {
        wql_conditions(changes, (k - 1) as nat) + (if k == 1 {
            Seq::empty()
        } else {
            " OR"@
        }) + wql_condition(changes[k - 1])
    }
}

/// The WQL query for the change events of the registry values.
pub fn reg_value_change_query(changes: &[RegValueChange]) -> (r: String)
    ensures
        r@ == "SELECT * FROM RegistryValueChangeEvent WHERE"@ + wql_conditions(
            changes@,
            changes@.len(),
        ),
{
    let mut query = String::from_str("SELECT * FROM RegistryValueChangeEvent WHERE");
    let n = changes.len();
    let mut k: usize = 0;
    while k < n
        invariant
            k <= n,
            n == changes@.len(),
            query@ == "SELECT * FROM RegistryValueChangeEvent WHERE"@ + wql_conditions(
                changes@,
                k as nat,
            ),
        decreases n - k,
    {
        let ghost before = query@;
        let change = &changes[k];
        if k > 0 {
            query.append(" OR");
        }
        query.append(" Hive=");
        push_wql_str(&mut query, change.hive.as_str());
        query.append(" AND KeyPath=");
        push_wql_str(&mut query, change.key_path.as_str());
        query.append(" AND ValueName=");
        push_wql_str(&mut query, change.value_name.as_str());
        assert(query@ =~= before + (if k == 0 {
            Seq::empty()
        } else {
            " OR"@
        }) + wql_condition(changes@[k as int]));
        k = k + 1;
    }
    query
}

} // verus!
