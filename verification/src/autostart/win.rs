//! Launch-at-login on Windows: a value under the per-user *Run* key.
//!
//! The enable, disable and query logic works over any [`RegistryStore`]. What a
//! backend gets from the registry functions, a return code and a blob of bytes,
//! is interpreted here.

use vstd::prelude::*;

use super::{run_command, Autostart, AutostartError, ErrorModel, VALUE_NAME};
use crate::text;

verus! {

/// The per-user Run key path. Values here are launched at each interactive
/// logon.
pub const RUN_SUBKEY: &'static str = "Software\\Microsoft\\Windows\\CurrentVersion\\Run";

/// The code of a call that succeeded.
pub const ERROR_SUCCESS: u32 = 0;

/// The code of a key or value that does not exist.
pub const ERROR_FILE_NOT_FOUND: u32 = 2;

// -- The store and the logic over it ----------------------------------------

/// An optional string as an optional sequence.
pub open spec fn opt_text(s: Option<String>) -> Option<Seq<char>> {
    match s {
        Some(s) => Some(s@),
        None => None,
    }
}

/// What a map holds under a key.
pub open spec fn looked_up(values: Map<Seq<char>, Seq<char>>, name: Seq<char>) -> Option<Seq<char>> {
    if values.dom().contains(name) {
        Some(values[name])
    } else {
        None
    }
}

/// A named-string-value store: read, write, or delete a single value.
///
/// A store may be shared with other processes, so nothing is promised here of what
/// one call says about another.
pub trait RegistryStore {
    /// Read the string value `name`, or `None` if it is absent.
    fn read(&self, name: &str) -> Result<Option<String>, AutostartError>;

    /// Write `data` to the string value `name`, creating the key if needed.
    fn write(&mut self, name: &str, data: &str) -> Result<(), AutostartError>;

    /// Delete the value `name`; succeeds even if it is already absent.
    fn delete(&mut self, name: &str) -> Result<(), AutostartError>;
}

/// An in-memory [`RegistryStore`], whose operations all succeed.
#[derive(Debug)]
pub struct FakeRegistry {
    values: Vec<(String, String)>,
}

/// The map that a list of pairs spells, a later pair over an earlier one.
pub open spec fn pairs_map(pairs: Seq<(String, String)>) -> Map<Seq<char>, Seq<char>>
    decreases pairs.len(),
{
    if pairs.len() == 0 {
        Map::empty()
    } else {
        pairs_map(pairs.drop_last()).insert(pairs.last().0@, pairs.last().1@)
    }
}

fn same_name(a: &str, b: &str) -> (same: bool)
    ensures
        same == (a@ == b@),
{
    text::same_chars(text::chars_of(a).as_slice(), text::chars_of(b).as_slice())
}

impl FakeRegistry {
    /// The values it holds, by name.
    pub closed spec fn contents(&self) -> Map<Seq<char>, Seq<char>> {
        pairs_map(self.values@)
    }

    /// An empty registry.
    pub fn new() -> (store: Self)
        ensures
            store.contents() == Map::<Seq<char>, Seq<char>>::empty(),
    {
        FakeRegistry { values: Vec::new() }
    }

    /// Whether nothing is stored.
    pub fn is_empty(&self) -> (empty: bool)
        ensures
            empty == (self.contents() == Map::<Seq<char>, Seq<char>>::empty()),
    {
        proof {
            if self.values@.len() > 0 {
                assert(pairs_map(self.values@).dom().contains(self.values@.last().0@));
            }
        }
        self.values.len() == 0
    }

    /// The value stored under `name`.
    pub fn get(&self, name: &str) -> (value: Option<String>)
        ensures
            opt_text(value) == looked_up(self.contents(), name@),
    {
        let mut i: usize = self.values.len();
        assert(self.values@.take(i as int) =~= self.values@);
        while i > 0
            invariant
                i <= self.values.len(),
                looked_up(pairs_map(self.values@), name@) == looked_up(
                    pairs_map(self.values@.take(i as int)),
                    name@,
                ),
            decreases i,
        {
            let ghost longer = self.values@.take(i as int);
            assert(longer.drop_last() =~= self.values@.take(i - 1));
            assert(longer.last() == self.values@[i - 1]);
            if same_name(self.values[i - 1].0.as_str(), name) {
                return Some(self.values[i - 1].1.clone());
            }
            i -= 1;
        }
        None
    }
}

impl Default for FakeRegistry {
    fn default() -> (store: Self)
        ensures
            store.contents() == Map::<Seq<char>, Seq<char>>::empty(),
    {
        FakeRegistry::new()
    }
}

impl RegistryStore for FakeRegistry {
    fn read(&self, name: &str) -> (value: Result<Option<String>, AutostartError>)
        ensures
            value matches Ok(v) && opt_text(v) == looked_up(self.contents(), name@),
    {
        Ok(self.get(name))
    }

    fn write(&mut self, name: &str, data: &str) -> (done: Result<(), AutostartError>)
        ensures
            done is Ok,
            final(self).contents() == old(self).contents().insert(name@, data@),
    {
        let ghost before = self.values@;
        self.values.push((name.to_owned(), data.to_owned()));
        assert(self.values@.drop_last() =~= before);
        Ok(())
    }

    fn delete(&mut self, name: &str) -> (done: Result<(), AutostartError>)
        ensures
            done is Ok,
            final(self).contents() == old(self).contents().remove(name@),
    {
        let mut kept: Vec<(String, String)> = Vec::new();
        let mut i: usize = 0;
        assert(self.values@.take(0) =~= Seq::<(String, String)>::empty());
        assert(pairs_map(kept@) =~= pairs_map(self.values@.take(0)).remove(name@));
        while i < self.values.len()
            invariant
                i <= self.values.len(),
                pairs_map(kept@) == pairs_map(self.values@.take(i as int)).remove(name@),
            decreases self.values.len() - i,
        {
            let ghost longer = self.values@.take(i + 1);
            let ghost before = kept@;
            assert(longer.drop_last() =~= self.values@.take(i as int));
            assert(longer.last() == self.values@[i as int]);
            if !same_name(self.values[i].0.as_str(), name) {
                kept.push((self.values[i].0.clone(), self.values[i].1.clone()));
                assert(kept@.drop_last() =~= before);
            }
            assert(pairs_map(kept@) =~= pairs_map(longer).remove(name@));
            i += 1;
        }
        assert(self.values@.take(self.values@.len() as int) =~= self.values@);
        self.values = kept;
        Ok(())
    }
}

/// [`Autostart`] over any [`RegistryStore`]: enabled while the value exists.
#[derive(Debug)]
pub struct RegistryAutostart<S: RegistryStore> {
    /// Where the value is kept.
    pub store: S,
    /// The value's name.
    pub value_name: String,
    /// The command it carries when enabled.
    pub command: String,
}

impl<S: RegistryStore> RegistryAutostart<S> {
    /// A backend over a store, for one value name and command.
    pub fn new(store: S, value_name: String, command: String) -> (backend: Self)
        ensures
            backend.store == store,
            backend.value_name == value_name,
            backend.command == command,
    {
        RegistryAutostart { store, value_name, command }
    }
}

/// Whether `enabled` is what a read value reports: any value means enabled, and a
/// failed read is passed on.
pub open spec fn reported(
    read: Result<Option<String>, AutostartError>,
    enabled: Result<bool, AutostartError>,
) -> bool {
    match read {
        Ok(value) => enabled matches Ok(on) && on == value is Some,
        Err(e) => enabled matches Err(err) && err == e,
    }
}

/// Whether a value that was read means enabled: any value does, an unreadable
/// store is an error.
pub fn enabled_from_read(read: Result<Option<String>, AutostartError>) -> (enabled: Result<
    bool,
    AutostartError,
>)
    ensures
        reported(read, enabled),
{
    match read {
        Ok(value) => Ok(value.is_some()),
        Err(e) => Err(e),
    }
}

/// Whether `enabled` is what asking `store` for the value `name` reports.
pub open spec fn asked<S: RegistryStore>(
    store: S,
    name: Seq<char>,
    enabled: Result<bool, AutostartError>,
) -> bool {
    exists|n: &str, read: Result<Option<String>, AutostartError>|
        n@ == name && #[trigger] call_ensures(S::read, (&store, n), read) && reported(read, enabled)
}

impl<S: RegistryStore> Autostart for RegistryAutostart<S> {
    /// Reads the value once, and reports what the store said.
    fn is_enabled(&self) -> (enabled: Result<bool, AutostartError>)
        ensures
            asked(self.store, self.value_name@, enabled),
    {
        enabled_from_read(self.store.read(self.value_name.as_str()))
    }

    /// Writes the command or deletes the value, and reports what the store said.
    fn set_enabled(&mut self, on: bool) -> (done: Result<(), AutostartError>)
        ensures
            final(self).value_name == old(self).value_name,
            final(self).command == old(self).command,
            on ==> exists|store: &mut S, name: &str, data: &str|
                *store == old(self).store && *final(store) == final(self).store && name@
                    == old(self).value_name@ && data@ == old(self).command@
                    && #[trigger] call_ensures(S::write, (store, name, data), done),
            !on ==> exists|store: &mut S, name: &str|
                *store == old(self).store && *final(store) == final(self).store && name@
                    == old(self).value_name@ && #[trigger] call_ensures(
                    S::delete,
                    (store, name),
                    done,
                ),
    {
        if on {
            self.store.write(self.value_name.as_str(), self.command.as_str())
        } else {
            self.store.delete(self.value_name.as_str())
        }
    }
}

/// The Windows launch-at-login backend.
#[derive(Debug)]
pub struct WindowsAutostart<S: RegistryStore>(pub RegistryAutostart<S>);

impl<S: RegistryStore> Autostart for WindowsAutostart<S> {
    fn is_enabled(&self) -> (enabled: Result<bool, AutostartError>)
        ensures
            asked(self.0.store, self.0.value_name@, enabled),
    {
        self.0.is_enabled()
    }

    fn set_enabled(&mut self, on: bool) -> (done: Result<(), AutostartError>)
        ensures
            final(self).0.value_name == old(self).0.value_name,
            final(self).0.command == old(self).0.command,
            on ==> exists|store: &mut S, name: &str, data: &str|
                *store == old(self).0.store && *final(store) == final(self).0.store && name@
                    == old(self).0.value_name@ && data@ == old(self).0.command@
                    && #[trigger] call_ensures(S::write, (store, name, data), done),
            !on ==> exists|store: &mut S, name: &str|
                *store == old(self).0.store && *final(store) == final(self).0.store && name@
                    == old(self).0.value_name@ && #[trigger] call_ensures(
                    S::delete,
                    (store, name),
                    done,
                ),
    {
        self.0.set_enabled(on)
    }
}

/// Build the backend over the Run key's store, for the current executable.
///
/// # Errors
/// [`AutostartError::ExePath`] if the executable path could not be resolved.
pub fn system<S: RegistryStore>(store: S, current_exe: Result<String, String>) -> (backend: Result<
    WindowsAutostart<S>,
    AutostartError,
>)
    ensures
        match current_exe {
            Err(what) => backend matches Err(e) && e@ == ErrorModel::ExePath(what@),
            Ok(exe) => {
                &&& backend matches Ok(b)
                &&& b.0.store == store
                &&& b.0.value_name@ == VALUE_NAME@
                &&& b.0.command@ == super::quoted_command(exe@)
            },
        },
{
    match current_exe {
        Err(what) => Err(AutostartError::ExePath(what)),
        Ok(exe) => Ok(
            WindowsAutostart(
                RegistryAutostart::new(store, VALUE_NAME.to_owned(), run_command(exe.as_str())),
            ),
        ),
    }
}

/// Over an in-memory store a query always succeeds, and reports whether the value
/// is there.
pub proof fn law_query_reports_the_value(
    store: FakeRegistry,
    name: Seq<char>,
    enabled: Result<bool, AutostartError>,
)
    requires
        asked(store, name, enabled),
    ensures
        enabled == Ok::<bool, AutostartError>(store.contents().dom().contains(name)),
{
}

/// What a query after a change reports: enabled after enabling, disabled after
/// disabling, whatever was stored before; and a change made twice is the change
/// made once.
pub proof fn law_query_follows_change(
    values: Map<Seq<char>, Seq<char>>,
    name: Seq<char>,
    command: Seq<char>,
)
    ensures
        looked_up(values.insert(name, command), name) == Some(command),
        looked_up(values.remove(name), name) is None,
        values.insert(name, command).insert(name, command) == values.insert(name, command),
        values.remove(name).remove(name) == values.remove(name),
{
    assert(values.insert(name, command).insert(name, command) =~= values.insert(name, command));
    assert(values.remove(name).remove(name) =~= values.remove(name));
}

// -- Return codes -----------------------------------------------------------

/// The text of a failed registry call.
pub open spec fn failed_call(op: Seq<char>, rc: u32) -> Seq<char> {
    op + " failed (code "@ + text::decimal_digits(rc as nat) + ")"@
}

/// Map a registry return code to a `Result`.
pub fn check(rc: u32, op: &str) -> (done: Result<(), AutostartError>)
    ensures
        if rc == ERROR_SUCCESS {
            done is Ok
        } else {
            done matches Err(e) && e@ == ErrorModel::Registry(failed_call(op@, rc))
        },
{
    if rc == ERROR_SUCCESS {
        return Ok(());
    }
    let mut message: String = text::join2(op, " failed (code ");
    message.append(text::decimal(rc as u64).as_str());
    message.append(")");
    Err(AutostartError::Registry(message))
}

/// Whether a key was opened, from the code that opening it gave: a key that does
/// not exist is no failure.
pub fn opened(rc: u32) -> (there: Result<bool, AutostartError>)
    ensures
        if rc == ERROR_FILE_NOT_FOUND {
            there matches Ok(yes) && !yes
        } else if rc == ERROR_SUCCESS {
            there matches Ok(yes) && yes
        } else {
            there matches Err(e) && e@ == ErrorModel::Registry(failed_call("RegOpenKeyExW"@, rc))
        },
{
    if rc == ERROR_FILE_NOT_FOUND {
        return Ok(false);
    }
    match check(rc, "RegOpenKeyExW") {
        Ok(_) => Ok(true),
        Err(e) => Err(e),
    }
}

/// Whether a value is gone, from the code that deleting it gave: a value that
/// was absent is gone already.
pub fn deleted(rc: u32) -> (done: Result<(), AutostartError>)
    ensures
        if rc == ERROR_FILE_NOT_FOUND || rc == ERROR_SUCCESS {
            done is Ok
        } else {
            done matches Err(e) && e@ == ErrorModel::Registry(failed_call("RegDeleteValueW"@, rc))
        },
{
    if rc == ERROR_FILE_NOT_FOUND {
        return Ok(());
    }
    check(rc, "RegDeleteValueW")
}

/// What the call that sizes a value leads to.
#[derive(Debug, Clone, Copy, PartialEq, Eq, Structural)]
pub enum SizeStep {
    /// There is no such value.
    Absent,
    /// The value is empty.
    Empty,
    /// Read this many bytes.
    Bytes(u32),
}

/// What to do after the call that sizes a value gave `rc` and `len`.
pub fn query_sized(rc: u32, len: u32) -> (sized: Result<SizeStep, AutostartError>)
    ensures
        if rc == ERROR_FILE_NOT_FOUND {
            sized matches Ok(s) && s == SizeStep::Absent
        } else if rc != ERROR_SUCCESS {
            sized matches Err(e) && e@ == ErrorModel::Registry(
                failed_call("RegQueryValueExW(size)"@, rc),
            )
        } else if len == 0 {
            sized matches Ok(s) && s == SizeStep::Empty
        } else {
            sized matches Ok(s) && s == SizeStep::Bytes(len)
        },
{
    if rc == ERROR_FILE_NOT_FOUND {
        return Ok(SizeStep::Absent);
    }
    match check(rc, "RegQueryValueExW(size)") {
        Err(e) => Err(e),
        Ok(_) => if len == 0 {
            Ok(SizeStep::Empty)
        } else {
            Ok(SizeStep::Bytes(len))
        },
    }
}

/// The value, from the code and the buffer that reading it gave; `len` is the
/// number of bytes written.
pub fn query_read(rc: u32, buf: Vec<u8>, len: u32) -> (value: Result<String, AutostartError>)
    ensures
        if rc != ERROR_SUCCESS {
            value matches Err(e) && e@ == ErrorModel::Registry(
                failed_call("RegQueryValueExW(read)"@, rc),
            )
        } else {
            value matches Ok(s) && s@ == decoded_blob(
                if len <= buf@.len() {
                    buf@.take(len as int)
                } else {
                    buf@
                },
            )
        },
{
    let mut buf: Vec<u8> = buf;
    match check(rc, "RegQueryValueExW(read)") {
        Err(e) => Err(e),
        Ok(_) => {
            buf.truncate(len as usize);
            Ok(decode_wide(buf.as_slice()))
        },
    }
}

/// The string value that querying gives: the sizing call's code and length, then
/// the reading call's code, buffer and length where the first asked for one.
pub fn query_string(
    size_rc: u32,
    size_len: u32,
    read_rc: u32,
    buf: Vec<u8>,
    read_len: u32,
) -> (value: Result<Option<String>, AutostartError>)
    ensures
        if size_rc == ERROR_FILE_NOT_FOUND {
            value matches Ok(v) && v is None
        } else if size_rc != ERROR_SUCCESS {
            value matches Err(e) && e@ == ErrorModel::Registry(
                failed_call("RegQueryValueExW(size)"@, size_rc),
            )
        } else if size_len == 0 {
            value matches Ok(v) && opt_text(v) == Some(Seq::<char>::empty())
        } else if read_rc != ERROR_SUCCESS {
            value matches Err(e) && e@ == ErrorModel::Registry(
                failed_call("RegQueryValueExW(read)"@, read_rc),
            )
        } else {
            value matches Ok(v) && opt_text(v) == Some(
                decoded_blob(
                    if read_len <= buf@.len() {
                        buf@.take(read_len as int)
                    } else {
                        buf@
                    },
                ),
            )
        },
{
    match query_sized(size_rc, size_len) {
        Err(e) => Err(e),
        Ok(SizeStep::Absent) => Ok(None),
        Ok(SizeStep::Empty) => {
            let empty: String = String::new();
            assert(empty@ =~= Seq::<char>::empty());
            Ok(Some(empty))
        },
        Ok(SizeStep::Bytes(_)) => match query_read(read_rc, buf, read_len) {
            Err(e) => Err(e),
            Ok(s) => Ok(Some(s)),
        },
    }
}

// -- UTF-16 -----------------------------------------------------------------

/// The UTF-16 code units of one character.
pub open spec fn char_units(c: char) -> Seq<u16> {
    let u = c as u32;
    if u < 0x10000 {
        seq![u as u16]
    } else {
        seq![
            (0xd800 + (u - 0x10000) / 0x400) as u16,
            (0xdc00 + (u - 0x10000) % 0x400) as u16,
        ]
    }
}

/// The UTF-16 code units of a text.
pub open spec fn utf16(s: Seq<char>) -> Seq<u16>
    decreases s.len(),
{
    if s.len() == 0 {
        Seq::empty()
    } else {
        utf16(s.drop_last()) + char_units(s.last())
    }
}

/// The little-endian bytes of code units.
pub open spec fn unit_bytes(units: Seq<u16>) -> Seq<u8> {
    Seq::new(
        2 * units.len(),
        |i: int|
            if i % 2 == 0 {
                (units[i / 2] % 256) as u8
            } else {
                (units[i / 2] / 256) as u8
            },
    )
}

/// The code units that little-endian bytes hold; an odd byte at the end holds
/// none.
pub open spec fn byte_units(bytes: Seq<u8>) -> Seq<u16> {
    Seq::new(bytes.len() / 2, |i: int| (bytes[2 * i] + 256 * bytes[2 * i + 1]) as u16)
}

/// The units before the first NUL.
pub open spec fn until_nul(units: Seq<u16>) -> Seq<u16>
    decreases units.len(),
{
    if units.len() == 0 || units[0] == 0 {
        Seq::empty()
    } else {
        seq![units[0]] + until_nul(units.drop_first())
    }
}

/// Whether a unit begins a surrogate pair.
pub open spec fn is_high(unit: u16) -> bool {
    0xd800 <= unit < 0xdc00
}

/// Whether a unit ends a surrogate pair.
pub open spec fn is_low(unit: u16) -> bool {
    0xdc00 <= unit < 0xe000
}

/// The text that code units spell, with U+FFFD for each unpaired surrogate.
pub open spec fn utf16_text(units: Seq<u16>) -> Seq<char>
    decreases units.len(),
{
    if units.len() == 0 {
        Seq::empty()
    } else if !is_high(units[0]) && !is_low(units[0]) {
        seq![units[0] as char] + utf16_text(units.drop_first())
    } else if is_high(units[0]) && units.len() >= 2 && is_low(units[1]) {
        seq![(0x10000 + (units[0] - 0xd800) * 0x400 + (units[1] - 0xdc00)) as char] + utf16_text(
            units.skip(2),
        )
    } else {
        seq!['\u{fffd}'] + utf16_text(units.drop_first())
    }
}

/// The text a registry blob holds: UTF-16, little-endian, up to the first NUL.
pub open spec fn decoded_blob(bytes: Seq<u8>) -> Seq<char> {
    utf16_text(until_nul(byte_units(bytes)))
}

/// `char::from_u32` gives the character with a scalar value: every value but the
/// surrogates and those above U+10FFFF has one.
pub assume_specification[ char::from_u32 ](i: u32) -> (c: Option<char>)
    ensures
        match c {
            Some(c) => c as u32 == i,
            None => 0xd800 <= i <= 0xdfff || i > 0x10ffff,
        },
;

/// Encode `s` as NUL-terminated UTF-16 for the wide registry functions.
pub fn wide(s: &str) -> (units: Vec<u16>)
    ensures
        units@ == utf16(s@).push(0),
{
    let chars: Vec<char> = text::chars_of(s);
    let mut units: Vec<u16> = Vec::new();
    let mut i: usize = 0;
    while i < chars.len()
        invariant
            i <= chars.len(),
            units@ == utf16(chars@.take(i as int)),
        decreases chars.len() - i,
    {
        let ghost longer = chars@.take(i + 1);
        let ghost before = units@;
        assert(longer.drop_last() =~= chars@.take(i as int));
        assert(longer.last() == chars@[i as int]);
        let u: u32 = chars[i] as u32;
        if u < 0x10000 {
            units.push(u as u16);
        } else {
            units.push((0xd800 + (u - 0x10000) / 0x400) as u16);
            units.push((0xdc00 + (u - 0x10000) % 0x400) as u16);
        }
        assert(units@ =~= before + char_units(chars@[i as int]));
        i += 1;
    }
    assert(chars@.take(chars@.len() as int) =~= s@);
    units.push(0);
    units
}

/// The blob that stores `s`: its NUL-terminated UTF-16 units as bytes.
pub fn wide_bytes(s: &str) -> (bytes: Vec<u8>)
    ensures
        bytes@ == unit_bytes(utf16(s@).push(0)),
{
    let units: Vec<u16> = wide(s);
    let mut bytes: Vec<u8> = Vec::new();
    let mut i: usize = 0;
    while i < units.len()
        invariant
            i <= units.len(),
            bytes@ == unit_bytes(units@.take(i as int)),
        decreases units.len() - i,
    {
        let ghost before = bytes@;
        bytes.push((units[i] % 256) as u8);
        bytes.push((units[i] / 256) as u8);
        assert(bytes@ =~= unit_bytes(units@.take(i + 1))) by {
            assert forall|j: int| 0 <= j < 2 * i implies bytes@[j] == #[trigger] unit_bytes(
                units@.take(i + 1),
            )[j] by {
                assert(bytes@[j] == before[j]);
                assert(units@.take(i + 1)[j / 2] == units@.take(i as int)[j / 2]);
            }
        }
        i += 1;
    }
    assert(units@.take(units@.len() as int) =~= units@);
    bytes
}

fn scalar(code: u32) -> (c: char)
    requires
        code <= 0x10ffff,
        !(0xd800 <= code <= 0xdfff),
    ensures
        c == code as char,
{
    match char::from_u32(code) {
        Some(c) => {
            proof {
                vstd::utf8::char_u32_cast(c, code);
            }
            c
        },
        None => '\u{fffd}',
    }
}

/// Decode a registry string blob: UTF-16, little-endian, possibly
/// NUL-terminated. Unpaired surrogates become U+FFFD.
pub fn decode_wide(bytes: &[u8]) -> (s: String)
    ensures
        s@ == decoded_blob(bytes@),
{
    let mut units: Vec<u16> = Vec::new();
    let mut i: usize = 0;
    let ghost all = byte_units(bytes@);
    assert(all.skip(0) =~= all);
    while i < bytes.len() / 2
        invariant_except_break
            units@ + until_nul(all.skip(i as int)) == until_nul(all),
        invariant
            i <= bytes.len() / 2,
            all == byte_units(bytes@),
        ensures
            units@ == until_nul(all),
        decreases bytes.len() / 2 - i,
    {
        let unit: u16 = bytes[2 * i] as u16 + 256 * (bytes[2 * i + 1] as u16);
        assert(all.skip(i as int)[0] == unit);
        if unit == 0 {
            assert(units@ + Seq::<u16>::empty() =~= units@);
            break;
        }
        let ghost before = units@;
        units.push(unit);
        assert(all.skip(i as int).drop_first() =~= all.skip(i + 1));
        assert(units@ + until_nul(all.skip(i + 1)) =~= before + (seq![unit] + until_nul(
            all.skip(i + 1),
        )));
        i += 1;
        if i == bytes.len() / 2 {
            assert(units@ + until_nul(all.skip(i as int)) =~= units@);
        }
    }
    let mut s: String = String::new();
    let mut k: usize = 0;
    assert(units@.skip(0) =~= units@);
    assert(s@ + utf16_text(units@.skip(0)) =~= utf16_text(units@));
    while k < units.len()
        invariant
            k <= units.len(),
            s@ + utf16_text(units@.skip(k as int)) == utf16_text(units@),
        decreases units.len() - k,
    {
        let unit: u16 = units[k];
        let ghost rest = units@.skip(k as int);
        let ghost before = s@;
        assert(rest[0] == unit);
        assert(rest.drop_first() =~= units@.skip(k + 1));
        if !(0xd800 <= unit && unit < 0xe000) {
            s.push(scalar(unit as u32));
            k += 1;
        } else if unit < 0xdc00 && k + 1 < units.len() && 0xdc00 <= units[k + 1] && units[k + 1]
            < 0xe000 {
            let low: u16 = units[k + 1];
            assert(rest[1] == low);
            assert(rest.skip(2) =~= units@.skip(k + 2));
            s.push(
                scalar(0x10000 + (unit as u32 - 0xd800) * 0x400 + (low as u32 - 0xdc00)),
            );
            k += 2;
        } else {
            if k + 1 < units.len() {
                assert(rest[1] == units@[k + 1]);
            }
            s.push('\u{fffd}');
            k += 1;
        }
        assert(s@ + utf16_text(units@.skip(k as int)) =~= before + utf16_text(rest));
    }
    assert(s@ + utf16_text(units@.skip(k as int)) =~= s@);
    s
}

proof fn lemma_utf16_front(s: Seq<char>)
    requires
        s.len() > 0,
    ensures
        utf16(s) == char_units(s[0]) + utf16(s.drop_first()),
    decreases s.len(),
{
    if s.len() == 1 {
        assert(s.drop_last() =~= Seq::<char>::empty());
        assert(s.drop_first() =~= Seq::<char>::empty());
        assert(utf16(s.drop_last()) =~= Seq::<u16>::empty());
        assert(utf16(s.drop_first()) =~= Seq::<u16>::empty());
    } else {
        lemma_utf16_front(s.drop_last());
        assert(s.drop_last().drop_first() =~= s.drop_first().drop_last());
        assert(s.drop_first().last() == s.last());
        assert(utf16(s) =~= char_units(s[0]) + (utf16(s.drop_first().drop_last()) + char_units(
            s.last(),
        )));
    }
}

/// The units of one character spell it, whatever follows them.
#[verifier::spinoff_prover]
proof fn lemma_char_units_read_back(c: char, rest: Seq<u16>)
    ensures
        utf16_text(char_units(c) + rest) == seq![c] + utf16_text(rest),
{
    let head = char_units(c);
    let all = head + rest;
    let u = c as u32;
    vstd::utf8::char_is_scalar(c);
    vstd::utf8::char_u32_cast(c, u);
    assert(all[0] == head[0]);
    if u < 0x10000 {
        assert(all.drop_first() =~= rest);
    } else {
        assert(all[1] == head[1]);
        assert(all.skip(2) =~= rest);
        assert(0 <= (u - 0x10000) / 0x400 < 0x400);
        assert(0 <= (u - 0x10000) % 0x400 < 0x400);
        assert(0x10000 + (head[0] - 0xd800) * 0x400 + (head[1] - 0xdc00) == u);
    }
}

proof fn lemma_utf16_reads_back(s: Seq<char>)
    ensures
        utf16_text(utf16(s)) == s,
    decreases s.len(),
{
    if s.len() > 0 {
        lemma_utf16_front(s);
        lemma_utf16_reads_back(s.drop_first());
        lemma_char_units_read_back(s[0], utf16(s.drop_first()));
        assert(seq![s[0]] + s.drop_first() =~= s);
    }
}

proof fn lemma_utf16_has_no_nul(s: Seq<char>)
    requires
        !s.contains('\0'),
    ensures
        !utf16(s).contains(0),
    decreases s.len(),
{
    if s.len() > 0 {
        assert forall|i: int| 0 <= i < s.drop_last().len() implies s.drop_last()[i] != '\0' by {
            assert(s.contains(s[i]));
        }
        lemma_utf16_has_no_nul(s.drop_last());
        assert(s.contains(s.last()));
        let front = utf16(s.drop_last());
        vstd::utf8::char_is_scalar(s.last());
        vstd::utf8::char_u32_cast(s.last(), s.last() as u32);
        let u = s.last() as u32;
        assert(u != 0);
        if u >= 0x10000 {
            assert(0 <= (u - 0x10000) / 0x400 < 0x400);
            assert(0 <= (u - 0x10000) % 0x400 < 0x400);
        }
        assert(char_units(s.last())[0] != 0);
        assert(char_units(s.last()).len() == 2 ==> char_units(s.last())[1] != 0);
        assert forall|i: int| 0 <= i < utf16(s).len() implies utf16(s)[i] != 0 by {
            if i < front.len() {
                assert(front.contains(front[i]));
            }
        }
    }
}

proof fn lemma_until_nul(units: Seq<u16>, rest: Seq<u16>)
    requires
        !units.contains(0),
    ensures
        until_nul(units.push(0) + rest) == units,
    decreases units.len(),
{
    let all = units.push(0) + rest;
    if units.len() > 0 {
        assert(units.contains(units[0]));
        assert(all[0] == units[0]);
        let tail = units.drop_first();
        assert forall|i: int| 0 <= i < tail.len() implies tail[i] != 0 by {
            assert(units.contains(units[i + 1]));
        }
        lemma_until_nul(tail, rest);
        assert(all.drop_first() =~= tail.push(0) + rest);
        assert(until_nul(all) =~= units);
    } else {
        assert(all[0] == 0);
    }
}

/// A text without NUL, written as a registry blob, reads back as itself, whatever
/// bytes follow the terminator.
pub proof fn law_written_text_reads_back(s: Seq<char>, rest: Seq<u8>)
    requires
        !s.contains('\0'),
    ensures
        decoded_blob(unit_bytes(utf16(s).push(0)) + rest) == s,
{
    let units = utf16(s).push(0);
    let written = unit_bytes(units);
    let blob = written + rest;
    assert(byte_units(blob) =~= units + byte_units(rest)) by {
        assert forall|i: int| 0 <= i < byte_units(blob).len() implies #[trigger] byte_units(blob)[i]
            == (units + byte_units(rest))[i] by {
            if i < units.len() {
                assert((2 * i) / 2 == i);
                assert((2 * i + 1) / 2 == i);
                assert(blob[2 * i] == written[2 * i]);
                assert(blob[2 * i + 1] == written[2 * i + 1]);
            } else {
                let k = i - units.len();
                assert(blob[2 * i] == rest[2 * k]);
                assert(blob[2 * i + 1] == rest[2 * k + 1]);
            }
        }
    }
    lemma_utf16_has_no_nul(s);
    lemma_until_nul(utf16(s), byte_units(rest));
    lemma_utf16_reads_back(s);
}

/// A text without NUL reads back as well from a blob that has no terminator, and an odd
/// byte at the end of a blob changes nothing.
pub proof fn law_terminator_and_odd_byte_are_optional(s: Seq<char>, bytes: Seq<u8>, odd: u8)
    requires
        !s.contains('\0'),
        bytes.len() % 2 == 0,
    ensures
        decoded_blob(unit_bytes(utf16(s))) == s,
        decoded_blob(bytes.push(odd)) == decoded_blob(bytes),
{
    let units = utf16(s);
    let written = unit_bytes(units);
    assert(byte_units(written) =~= units) by {
        assert forall|i: int| 0 <= i < units.len() implies #[trigger] byte_units(written)[i]
            == units[i] by {
            assert((2 * i) / 2 == i);
            assert((2 * i + 1) / 2 == i);
        }
    }
    lemma_utf16_has_no_nul(s);
    lemma_until_no_nul(units);
    lemma_utf16_reads_back(s);
    assert(byte_units(bytes.push(odd)) =~= byte_units(bytes));
}

proof fn lemma_until_no_nul(units: Seq<u16>)
    requires
        !units.contains(0),
    ensures
        until_nul(units) == units,
    decreases units.len(),
{
    if units.len() > 0 {
        assert(units.contains(units[0]));
        let tail = units.drop_first();
        assert forall|i: int| 0 <= i < tail.len() implies tail[i] != 0 by {
            assert(units.contains(units[i + 1]));
        }
        lemma_until_no_nul(tail);
        assert(seq![units[0]] + tail =~= units);
    }
}

/// A blob is read two bytes at a time, the low one first, up to the first pair of
/// zeros.
pub proof fn law_blob_is_read_two_bytes_at_a_time(low: u8, high: u8, rest: Seq<u8>)
    ensures
        byte_units(seq![low, high] + rest) == seq![(low + 256 * high) as u16] + byte_units(rest),
        decoded_blob(seq![0u8, 0u8] + rest) == Seq::<char>::empty(),
        decoded_blob(Seq::empty()) == Seq::<char>::empty(),
        low != 0 || high != 0 ==> decoded_blob(seq![low, high] + rest) == utf16_text(
            seq![(low + 256 * high) as u16] + until_nul(byte_units(rest)),
        ),
{
    lemma_two_bytes(low, high, rest);
    lemma_two_bytes(0, 0, rest);
    let unit = (low + 256 * high) as u16;
    let units = seq![unit] + byte_units(rest);
    assert(units[0] == unit);
    assert(units.drop_first() =~= byte_units(rest));
    let ended = seq![0u16] + byte_units(rest);
    assert(ended[0] == 0);
    assert(byte_units(Seq::<u8>::empty()) =~= Seq::<u16>::empty());
}

proof fn lemma_two_bytes(low: u8, high: u8, rest: Seq<u8>)
    ensures
        byte_units(seq![low, high] + rest) == seq![(low + 256 * high) as u16] + byte_units(rest),
{
    let bytes = seq![low, high] + rest;
    assert forall|i: int| 0 <= i < byte_units(bytes).len() implies #[trigger] byte_units(bytes)[i]
        == (seq![(low + 256 * high) as u16] + byte_units(rest))[i] by {
        if i > 0 {
            assert(bytes[2 * i] == rest[2 * (i - 1)]);
            assert(bytes[2 * i + 1] == rest[2 * (i - 1) + 1]);
        }
    }
    assert(byte_units(bytes) =~= seq![(low + 256 * high) as u16] + byte_units(rest));
}

/// Each unit outside the surrogates is one character, each pair of a high and a low
/// one is one, and each surrogate that is not in such a pair becomes U+FFFD, with
/// what follows it read on from the next unit.
pub proof fn law_each_unit_or_pair_is_one_character(unit: u16, low: u16, rest: Seq<u16>)
    ensures
        unit < 0xd800 || unit >= 0xe000 ==> utf16_text(seq![unit] + rest) == seq![unit as char]
            + utf16_text(rest),
        0xd800 <= unit < 0xdc00 && 0xdc00 <= low < 0xe000 ==> utf16_text(seq![unit, low] + rest)
            == seq![(0x10000 + (unit - 0xd800) * 0x400 + (low - 0xdc00)) as char] + utf16_text(rest),
        0xdc00 <= unit < 0xe000 ==> utf16_text(seq![unit] + rest) == seq!['\u{fffd}']
            + utf16_text(rest),
        0xd800 <= unit < 0xdc00 && (rest.len() == 0 || rest[0] < 0xdc00 || rest[0] >= 0xe000)
            ==> utf16_text(seq![unit] + rest) == seq!['\u{fffd}'] + utf16_text(rest),
        utf16_text(Seq::empty()) == Seq::<char>::empty(),
{
    let one = seq![unit] + rest;
    assert(one[0] == unit);
    assert(one.drop_first() =~= rest);
    assert(rest.len() > 0 ==> one[1] == rest[0]);
    let two = seq![unit, low] + rest;
    assert(two[0] == unit && two[1] == low);
    assert(two.skip(2) =~= rest);
}

/// A text is written character by character: one unit for a character of the basic
/// plane, a high and a low surrogate for any other.
pub proof fn law_text_is_written_character_by_character(a: Seq<char>, c: char, b: Seq<char>)
    ensures
        utf16(a + b) == utf16(a) + utf16(b),
        utf16(seq![c]) == char_units(c),
        (c as u32) < 0x10000 ==> utf16(seq![c]) == seq![c as u16],
        c as u32 >= 0x10000 ==> {
            let units = utf16(seq![c]);
            &&& units.len() == 2
            &&& 0xd800 <= units[0] < 0xdc00 && 0xdc00 <= units[1] < 0xe000
            &&& 0x10000 + (units[0] - 0xd800) * 0x400 + (units[1] - 0xdc00) == c as u32
        },
    decreases b.len(),
{
    let one = seq![c];
    assert(one.drop_last() =~= Seq::<char>::empty());
    assert(utf16(Seq::<char>::empty()) =~= Seq::<u16>::empty());
    assert(utf16(one) =~= char_units(c));
    vstd::utf8::char_is_scalar(c);
    vstd::utf8::char_u32_cast(c, c as u32);
    let u = c as u32;
    if u >= 0x10000 {
        assert(0 <= (u - 0x10000) / 0x400 < 0x400);
        assert(0 <= (u - 0x10000) % 0x400 < 0x400);
    }
    if b.len() == 0 {
        assert(a + b =~= a);
        assert(utf16(a) + utf16(b) =~= utf16(a));
    } else {
        law_text_is_written_character_by_character(a, c, b.drop_last());
        assert((a + b).drop_last() =~= a + b.drop_last());
        assert(utf16(a + b) =~= utf16(a) + utf16(b));
    }
}

/// The registration is the value `Duja` under the per-user Run key; a code of zero is
/// success, two means that a key or value is not there, and any other is told with
/// the call's name.
pub proof fn law_registry_names_and_codes(op: Seq<char>, rc: u32)
    ensures
        VALUE_NAME@ == "Duja"@,
        RUN_SUBKEY@ == "Software\\Microsoft\\Windows\\CurrentVersion\\Run"@,
        ERROR_SUCCESS == 0,
        ERROR_FILE_NOT_FOUND == 2,
        failed_call(op, rc) == op + " failed (code "@ + text::decimal_digits(rc as nat) + ")"@,
{
}

} // verus!
