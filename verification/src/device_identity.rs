use vstd::prelude::*;
use crate::ids::new_uuid_v4;
use crate::store::{get, KvStore};
use crate::text::{is_blank, str_is_blank, trim, trim_str};

verus! {

/// The store key of the device identifier.
pub const DEVICE_ID_KEY: &'static str = "sync_transfer_device_id";
/// The store key under which older versions kept the device identifier.
pub const LEGACY_SYNC_TRANSFER_LAN_DEVICE_ID_KEY: &'static str = "sync_transfer_lan_device_id";

/// What `serde_json::from_str::<String>` reads from a JSON text: the string
/// it holds, or `None` when the text is not a JSON string.
pub uninterp spec fn json_string_of(text: Seq<char>) -> Option<Seq<char>>;

/// A lower-case hexadecimal digit.
pub open spec fn hex_digit_lower(d: int) -> char {
    if d < 10 { (('0' as int) + d) as char } else { (('a' as int) + d - 10) as char }
}

/// How `serde_json` writes one character inside a string literal: a quote
/// and a backslash behind a backslash, the five control characters with a
/// short escape as that escape, the other control characters below U+0020
/// as `\u00` and two lower-case hex digits, and every other character as
/// it is.
pub open spec fn json_escaped_char(c: char) -> Seq<char> {
    if c == '"' {
        seq!['\\', '"']
    } else if c == '\\' {
        seq!['\\', '\\']
    } else if c == '\u{8}' {
        seq!['\\', 'b']
    } else if c == '\t' {
        seq!['\\', 't']
    } else if c == '\n' {
        seq!['\\', 'n']
    } else if c == '\u{c}' {
        seq!['\\', 'f']
    } else if c == '\r' {
        seq!['\\', 'r']
    } else if (c as u32) < 0x20 {
        seq!['\\', 'u', '0', '0', hex_digit_lower((c as u32) as int / 16), hex_digit_lower((c as u32) as int % 16)]
    } else {
        seq![c]
    }
}

/// The escaped characters of a string.
pub open spec fn json_escaped(s: Seq<char>) -> Seq<char>
    decreases s.len(),
{
    if s.len() == 0 {
        Seq::empty()
    } else {
        json_escaped(s.drop_last()) + json_escaped_char(s.last())
    }
}

/// What `serde_json::to_string` writes for a string: its JSON literal, the
/// escaped characters between double quotes.
pub open spec fn json_literal_of(s: Seq<char>) -> Seq<char> {
    seq!['"'] + json_escaped(s) + seq!['"']
}

/// Reads a JSON string with `serde_json::from_str::<String>`; the result is
/// named by `json_string_of`.
#[verifier::external_body]
fn json_string_value(text: &str) -> (r: Option<String>)
    ensures
        match json_string_of(text@) {
            Some(s) => r is Some && r->0@ == s,
            None => r is None,
        },
{
    serde_json::from_str::<String>(text).ok()
}

/// Writes a string as a JSON literal with `serde_json::to_string`, which
/// cannot fail for a string (`format_escaped_str` with the `ESCAPE` table
/// of serde_json's `ser.rs`); reading the literal back with
/// `serde_json::from_str::<String>` gives the string again.
#[verifier::external_body]
fn json_literal(s: &str) -> (r: String)
    ensures
        r@ == json_literal_of(s@),
        json_string_of(r@) == Some(s@),
{
    serde_json::to_string(s).unwrap_or_default()
}

/// The identifier stored under `key`: the trimmed string, when the stored
/// value is a JSON string that is not blank.
pub open spec fn stored_id(m: Map<Seq<char>, Seq<char>>, key: Seq<char>) -> Option<Seq<char>> {
    if m.dom().contains(key) && json_string_of(m[key]) is Some && !is_blank(json_string_of(m[key])->0) {
        Some(trim(json_string_of(m[key])->0))
    } else {
        None
    }
}

fn stored_device_id(store: &KvStore, key: &str) -> (r: Option<String>)
    ensures
        match stored_id(store@, key@) {
            Some(s) => r is Some && r->0@ == s,
            None => r is None,
        },
{
    match get(store, key) {
        Some(text) => match json_string_value(text.as_str()) {
            Some(s) => {
                if str_is_blank(s.as_str()) {
                    None
                } else {
                    Some(trim_str(s.as_str()))
                }
            },
            None => None,
        },
        None => None,
    }
}

/// The device identifier of this process, loaded or created once.
pub struct DeviceIdentity {
    pub cached: Option<String>,
}

impl DeviceIdentity {
    /// No identifier loaded yet.
    pub fn new() -> (d: Self)
        ensures
            d.cached is None,
    {
        DeviceIdentity { cached: None }
    }
}

/// The identifier of this device: the one already loaded in this process;
/// else the stored one; else the one an older version stored, which is then
/// stored under the current key; else a new random uuid, which is stored.
pub fn device_id(identity: &mut DeviceIdentity, store: &mut KvStore) -> (r: String)
    ensures
        final(identity).cached is Some && final(identity).cached->0@ == r@,
        old(identity).cached is Some ==> r@ == old(identity).cached->0@ && final(store)@ == old(store)@,
        old(identity).cached is None ==> ({
            let primary = stored_id(old(store)@, DEVICE_ID_KEY@);
            let legacy = stored_id(old(store)@, LEGACY_SYNC_TRANSFER_LAN_DEVICE_ID_KEY@);
            if primary is Some {
                r@ == primary->0 && final(store)@ == old(store)@
            } else if legacy is Some {
                r@ == legacy->0 && final(store)@ == old(store)@.insert(DEVICE_ID_KEY@, json_literal_of(r@))
                    && json_string_of(json_literal_of(r@)) == Some(r@)
            } else {
                final(store)@ == old(store)@.insert(DEVICE_ID_KEY@, json_literal_of(r@))
                    && json_string_of(json_literal_of(r@)) == Some(r@)
                    && crate::ids::is_hyphenated_uuid_v4(r@)
            }
        }),
{
    match &identity.cached {
        Some(c) => return c.clone(),
        None => {},
    }
    let id = match stored_device_id(store, DEVICE_ID_KEY) {
        Some(id) => id,
        None => match stored_device_id(store, LEGACY_SYNC_TRANSFER_LAN_DEVICE_ID_KEY) {
            Some(id) => {
                crate::store::set(store, DEVICE_ID_KEY, json_literal(id.as_str()));
                id
            },
            None => {
                let id = new_uuid_v4();
                crate::store::set(store, DEVICE_ID_KEY, json_literal(id.as_str()));
                id
            },
        },
    };
    identity.cached = Some(id.clone());
    id
}

} // verus!
