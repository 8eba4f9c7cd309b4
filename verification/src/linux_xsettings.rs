//! The `_XSETTINGS_SETTINGS` blob: one number out of one binary property.
//!
//! An XSETTINGS manager publishes every desktop setting as a single binary
//! property. Exactly one of them matters here: `Xft/DPI`, in 1024ths of a dot
//! per inch.
//!
//! All multi-byte fields use the byte order named by the first byte, and every
//! variable-length field is padded to a multiple of four bytes:
//!
//! ```text
//! byte      byte order: 'l' (LSB first) or 'B' (MSB first)
//! byte[3]   padding
//! CARD32    serial
//! CARD32    n_settings
//! n_settings x {
//!     byte      type: 0 = integer, 1 = string, 2 = colour
//!     byte      padding
//!     CARD16    name length
//!     byte[]    name, padded
//!     CARD32    last-change serial
//!     ...       value, per type
//! }
//! ```
//!
//! An unrecognised byte-order byte falls back to the host's order, and a
//! malformed setting stops the search.

use vstd::prelude::*;
use vstd::slice::slice_subrange;

verus! {

/// Byte-order marker: least significant byte first, `l`.
pub const LITTLE_ENDIAN: u8 = 0x6c;

/// Byte-order marker: most significant byte first, `B`.
pub const BIG_ENDIAN: u8 = 0x42;

/// The fixed header: the byte-order byte, padding and the serial.
pub const HEADER_BYTES: usize = 8;

/// Type tag of a 32-bit integer.
pub const TYPE_INTEGER: u8 = 0;

/// Type tag of a length-prefixed byte string.
pub const TYPE_STRING: u8 = 1;

/// Type tag of four 16-bit colour components.
pub const TYPE_COLOR: u8 = 2;

/// The setting an X11 session's scale factor comes from: `Xft/DPI`.
pub open spec fn dpi_name() -> Seq<u8> {
    seq![0x58, 0x66, 0x74, 0x2f, 0x44, 0x50, 0x49]
}

/// Byte order of a blob.
#[derive(Debug, Clone, Copy, PartialEq, Eq, Structural)]
pub enum Endianness {
    /// Least significant byte first.
    Little,
    /// Most significant byte first.
    Big,
}

// -- The format -----------------------------------------------------------

/// The number two bytes spell.
pub open spec fn card16_of(b: Seq<u8>, order: Endianness) -> int {
    match order {
        Endianness::Little => b[0] + b[1] * 0x100,
        Endianness::Big => b[0] * 0x100 + b[1],
    }
}

/// The number four bytes spell.
pub open spec fn card32_of(b: Seq<u8>, order: Endianness) -> int {
    match order {
        Endianness::Little => b[0] + b[1] * 0x100 + b[2] * 0x1_0000 + b[3] * 0x100_0000,
        Endianness::Big => b[0] * 0x100_0000 + b[1] * 0x1_0000 + b[2] * 0x100 + b[3],
    }
}

/// An unsigned 32-bit number read as a two's-complement one.
pub open spec fn as_signed(n: int) -> int {
    if n >= 0x8000_0000 {
        n - 0x1_0000_0000
    } else {
        n
    }
}

/// Bytes between a field of `len` bytes and the next multiple of four.
pub open spec fn padding(len: int) -> int {
    (-len) % 4
}

/// A setting's value, as far as this module reads it.
#[derive(Debug, Clone, Copy, PartialEq, Eq, Structural)]
pub enum Value {
    /// A 32-bit integer.
    Integer(i32),
    /// A string or a colour: stepped over, not kept.
    Other,
}

/// One setting at the front of some bytes: its name, its value, and how many
/// bytes it takes up.
pub ghost struct SettingAt {
    pub name: Seq<u8>,
    pub value: Value,
    pub len: int,
}

/// Where the value of a setting with a name of `name_len` bytes begins.
pub open spec fn value_at(name_len: int) -> int {
    4 + name_len + padding(name_len) + 4
}

/// The setting at the front of `b`, or `None` where `b` does not hold a whole
/// one or its type is unknown.
pub open spec fn setting_at(b: Seq<u8>, order: Endianness) -> Option<SettingAt> {
    let name_len = card16_of(b.skip(2), order);
    let start = value_at(name_len);
    let name = b.subrange(4, 4 + name_len);
    if b.len() < 4 || b.len() < start {
        None
    } else if b[0] == TYPE_INTEGER {
        if b.len() < start + 4 {
            None
        } else {
            Some(
                SettingAt {
                    name,
                    value: Value::Integer(as_signed(card32_of(b.skip(start), order)) as i32),
                    len: start + 4,
                },
            )
        }
    } else if b[0] == TYPE_STRING {
        let text_len = card32_of(b.skip(start), order);
        if b.len() < start + 4 || b.len() < start + 4 + text_len + padding(text_len) {
            None
        } else {
            Some(
                SettingAt {
                    name,
                    value: Value::Other,
                    len: start + 4 + text_len + padding(text_len),
                },
            )
        }
    } else if b[0] == TYPE_COLOR {
        if b.len() < start + 8 {
            None
        } else {
            Some(SettingAt { name, value: Value::Other, len: start + 8 })
        }
    } else {
        None
    }
}

/// The integer of the first setting named `Xft/DPI` among the next `count`. A
/// malformed setting before it, or another type of value, means there is none.
pub open spec fn dpi_in(b: Seq<u8>, order: Endianness, count: int) -> Option<i32>
    decreases count,
{
    if count <= 0 {
        None
    } else {
        match setting_at(b, order) {
            None => None,
            Some(s) => if s.name == dpi_name() {
                match s.value {
                    Value::Integer(raw) => Some(raw),
                    Value::Other => None,
                }
            } else {
                dpi_in(b.skip(s.len), order, count - 1)
            },
        }
    }
}

/// The byte order a blob is in; `host` decides for an unknown marker.
pub open spec fn order_of(blob: Seq<u8>, host: Endianness) -> Endianness {
    if blob[0] == BIG_ENDIAN {
        Endianness::Big
    } else if blob[0] == LITTLE_ENDIAN {
        Endianness::Little
    } else {
        host
    }
}

/// The raw `Xft/DPI` of a blob.
pub open spec fn dpi_of(blob: Seq<u8>, host: Endianness) -> Option<i32> {
    if blob.len() < HEADER_BYTES + 4 {
        None
    } else {
        let order = order_of(blob, host);
        dpi_in(
            blob.skip(HEADER_BYTES + 4),
            order,
            card32_of(blob.skip(HEADER_BYTES as int), order),
        )
    }
}

// -- The parser -----------------------------------------------------------

/// `std`'s `u16::from_ne_bytes`: the two bytes in the machine's own order, which
/// is one of the two there are. Which one is not said: it differs between
/// machines.
#[verifier::external_body]
fn native_u16(bytes: [u8; 2]) -> (n: u16)
    ensures
        n == bytes[0] + bytes[1] * 0x100 || n == bytes[0] * 0x100 + bytes[1],
{
    u16::from_ne_bytes(bytes)
}

impl Endianness {
    /// The byte order of a machine on which the bytes 1, 0 are the number `n`.
    pub fn spelling(n: u16) -> (order: Self)
        ensures
            order == if n == 1 {
                Endianness::Little
            } else {
                Endianness::Big
            },
            n == 1 || n == 0x100 ==> card16_of(seq![1u8, 0u8], order) == n,
    {
        if n == 1 {
            Endianness::Little
        } else {
            Endianness::Big
        }
    }

    /// The byte order of the machine this is running on, which is not said: it
    /// differs between machines.
    fn native() -> (order: Self)
    {
        Endianness::spelling(native_u16([1, 0]))
    }
}

/// Bytes between a field of `len` bytes and the next multiple of four; zero when
/// `len` is already one.
pub fn word_padding(len: usize) -> (pad: usize)
    ensures
        pad == padding(len as int),
        pad < 4,
{
    (4 - len % 4) % 4
}

/// One parsed setting.
pub struct Setting<'a> {
    /// The name, exactly as it appears in the blob.
    pub name: &'a [u8],
    /// The value.
    pub value: Value,
}

/// A cursor over a blob that never reads past the end.
///
/// Every accessor returns `None` and consumes nothing where the bytes run out.
pub struct Parser<'a> {
    /// The bytes not yet consumed.
    pub bytes: &'a [u8],
    /// The byte order of the blob.
    pub endianness: Endianness,
}

impl<'a> Parser<'a> {
    /// Read the fixed header and position the cursor at the settings count.
    pub fn new(bytes: &'a [u8], host: Endianness) -> (parser: Option<Self>)
        ensures
            parser is Some <==> bytes@.len() >= HEADER_BYTES,
            parser matches Some(p) ==> {
                &&& p.bytes@ == bytes@.skip(HEADER_BYTES as int)
                &&& p.endianness == order_of(bytes@, host)
            },
    {
        if bytes.len() < HEADER_BYTES {
            return None;
        }
        let marker: u8 = bytes[0];
        let endianness: Endianness = if marker == BIG_ENDIAN {
            Endianness::Big
        } else if marker == LITTLE_ENDIAN {
            Endianness::Little
        } else {
            host
        };
        let rest: &'a [u8] = slice_subrange(bytes, HEADER_BYTES, bytes.len());
        assert(rest@ == bytes@.skip(HEADER_BYTES as int));
        Some(Parser { bytes: rest, endianness })
    }

    /// Take `n` bytes, or `None` if fewer remain.
    pub fn take(&mut self, n: usize) -> (part: Option<&'a [u8]>)
        ensures
            final(self).endianness == old(self).endianness,
            part is Some <==> old(self).bytes@.len() >= n,
            match part {
                Some(p) => {
                    &&& p@ == old(self).bytes@.take(n as int)
                    &&& final(self).bytes@ == old(self).bytes@.skip(n as int)
                },
                None => final(self).bytes@ == old(self).bytes@,
            },
    {
        if self.bytes.len() < n {
            return None;
        }
        let part: &'a [u8] = slice_subrange(self.bytes, 0, n);
        let rest: &'a [u8] = slice_subrange(self.bytes, n, self.bytes.len());
        assert(part@ == self.bytes@.take(n as int));
        assert(rest@ == self.bytes@.skip(n as int));
        self.bytes = rest;
        Some(part)
    }

    /// Skip to the next multiple of four after a field of `len` bytes.
    pub fn pad_to_word(&mut self, len: usize) -> (done: Option<()>)
        ensures
            final(self).endianness == old(self).endianness,
            done is Some <==> old(self).bytes@.len() >= padding(len as int),
            final(self).bytes@ == (if done is Some {
                old(self).bytes@.skip(padding(len as int))
            } else {
                old(self).bytes@
            }),
    {
        match self.take(word_padding(len)) {
            Some(_) => Some(()),
            None => None,
        }
    }

    /// Read one byte.
    pub fn byte(&mut self) -> (byte: Option<u8>)
        ensures
            final(self).endianness == old(self).endianness,
            byte is Some <==> old(self).bytes@.len() >= 1,
            match byte {
                Some(b) => {
                    &&& b == old(self).bytes@[0]
                    &&& final(self).bytes@ == old(self).bytes@.skip(1)
                },
                None => final(self).bytes@ == old(self).bytes@,
            },
    {
        match self.take(1) {
            Some(b) => Some(b[0]),
            None => None,
        }
    }

    /// Read a 16-bit field in the blob's byte order.
    pub fn card16(&mut self) -> (card: Option<u16>)
        ensures
            final(self).endianness == old(self).endianness,
            card is Some <==> old(self).bytes@.len() >= 2,
            match card {
                Some(n) => {
                    &&& n == card16_of(old(self).bytes@, old(self).endianness)
                    &&& final(self).bytes@ == old(self).bytes@.skip(2)
                },
                None => final(self).bytes@ == old(self).bytes@,
            },
    {
        let endianness: Endianness = self.endianness;
        match self.take(2) {
            Some(b) => Some(
                match endianness {
                    Endianness::Little => b[0] as u16 + b[1] as u16 * 0x100,
                    Endianness::Big => b[0] as u16 * 0x100 + b[1] as u16,
                },
            ),
            None => None,
        }
    }

    /// Read a 32-bit field in the blob's byte order.
    pub fn card32(&mut self) -> (card: Option<u32>)
        ensures
            final(self).endianness == old(self).endianness,
            card is Some <==> old(self).bytes@.len() >= 4,
            match card {
                Some(n) => {
                    &&& n == card32_of(old(self).bytes@, old(self).endianness)
                    &&& final(self).bytes@ == old(self).bytes@.skip(4)
                },
                None => final(self).bytes@ == old(self).bytes@,
            },
    {
        let endianness: Endianness = self.endianness;
        match self.take(4) {
            Some(b) => Some(
                match endianness {
                    Endianness::Little => b[0] as u32 + b[1] as u32 * 0x100 + b[2] as u32 * 0x1_0000
                        + b[3] as u32 * 0x100_0000,
                    Endianness::Big => b[0] as u32 * 0x100_0000 + b[1] as u32 * 0x1_0000 + b[2] as u32
                        * 0x100 + b[3] as u32,
                },
            ),
            None => None,
        }
    }

    /// Read one setting, leaving the cursor on the next, or where it was if there
    /// is no whole one.
    pub fn setting(&mut self) -> (setting: Option<Setting<'a>>)
        ensures
            final(self).endianness == old(self).endianness,
            match setting_at(old(self).bytes@, old(self).endianness) {
                Some(at) => {
                    &&& setting matches Some(s) && s.name@ == at.name && s.value == at.value
                    &&& final(self).bytes@ == old(self).bytes@.skip(at.len)
                },
                None => setting is None && final(self).bytes@ == old(self).bytes@,
            },
    {
        let start: &'a [u8] = self.bytes;
        let setting: Option<Setting<'a>> = self.setting_fields();
        if setting.is_none() {
            self.bytes = start;
        }
        setting
    }

    /// Read the fields of one setting; where they run out, the cursor stays behind
    /// the last one read.
    fn setting_fields(&mut self) -> (setting: Option<Setting<'a>>)
        ensures
            final(self).endianness == old(self).endianness,
            match setting_at(old(self).bytes@, old(self).endianness) {
                Some(at) => {
                    &&& setting matches Some(s) && s.name@ == at.name && s.value == at.value
                    &&& final(self).bytes@ == old(self).bytes@.skip(at.len)
                },
                None => setting is None,
            },
    {
        let ghost b = self.bytes@;
        let ghost order = self.endianness;
        let ty: u8 = match self.byte() {
            Some(ty) => ty,
            None => return None,
        };
        // One byte of padding after the type tag.
        if self.take(1).is_none() {
            return None;
        }
        assert(self.bytes@ == b.skip(2));
        let name_len: usize = match self.card16() {
            Some(n) => n as usize,
            None => return None,
        };
        assert(self.bytes@ == b.skip(4));
        let name: &'a [u8] = match self.take(name_len) {
            Some(name) => name,
            None => return None,
        };
        assert(name@ == b.subrange(4, 4 + name_len));
        assert(self.bytes@ == b.skip(4 + name_len));
        if self.pad_to_word(name_len).is_none() {
            return None;
        }
        assert(self.bytes@ == b.skip(4 + name_len + padding(name_len as int)));
        // The last-change serial.
        if self.take(4).is_none() {
            return None;
        }
        let ghost start = value_at(name_len as int);
        assert(self.bytes@ == b.skip(start));
        let value: Value = if ty == TYPE_INTEGER {
            let raw: u32 = match self.card32() {
                Some(raw) => raw,
                None => return None,
            };
            assert(self.bytes@ == b.skip(start + 4));
            let signed: i32 = if raw < 0x8000_0000 {
                raw as i32
            } else {
                (raw - 0x8000_0000) as i32 + i32::MIN
            };
            Value::Integer(signed)
        } else if ty == TYPE_STRING {
            let len: usize = match self.card32() {
                Some(len) => len as usize,
                None => return None,
            };
            assert(self.bytes@ == b.skip(start + 4));
            if self.take(len).is_none() {
                return None;
            }
            assert(self.bytes@ == b.skip(start + 4 + len));
            if self.pad_to_word(len).is_none() {
                return None;
            }
            assert(self.bytes@ == b.skip(start + 4 + len + padding(len as int)));
            Value::Other
        } else if ty == TYPE_COLOR {
            if self.take(8).is_none() {
                return None;
            }
            assert(self.bytes@ == b.skip(start + 8));
            Value::Other
        } else {
            // An unknown type has an unknown payload length, so the walk cannot
            // step over it.
            return None;
        };
        Some(Setting { name, value })
    }
}

fn is_dpi_name(name: &[u8]) -> (yes: bool)
    ensures
        yes == (name@ == dpi_name()),
{
    if name.len() != 7 {
        return false;
    }
    let yes: bool = name[0] == 0x58 && name[1] == 0x66 && name[2] == 0x74 && name[3] == 0x2f
        && name[4] == 0x44 && name[5] == 0x50 && name[6] == 0x49;
    assert(yes ==> name@ =~= dpi_name());
    yes
}

/// `Xft/DPI` from a property blob, in 1024ths of a dot per inch; `host` is the
/// byte order taken for an unknown marker.
///
/// The value is not sanity-checked: a zero or negative one is handed on as it
/// is, for the guard at the end of the scale chain to see.
pub fn xft_dpi_on(blob: &[u8], host: Endianness) -> (raw: Option<i32>)
    ensures
        raw == dpi_of(blob@, host),
{
    let mut parser: Parser = match Parser::new(blob, host) {
        Some(parser) => parser,
        None => return None,
    };
    let count: u32 = match parser.card32() {
        Some(count) => count,
        None => return None,
    };
    let ghost order = order_of(blob@, host);
    assert(parser.bytes@ == blob@.skip(HEADER_BYTES + 4));
    let mut left: u32 = count;
    while left > 0
        invariant
            parser.endianness == order,
            dpi_of(blob@, host) == dpi_in(parser.bytes@, order, left as int),
        decreases left,
    {
        let setting: Setting = match parser.setting() {
            Some(setting) => setting,
            None => return None,
        };
        if is_dpi_name(setting.name) {
            return match setting.value {
                Value::Integer(raw) => Some(raw),
                Value::Other => None,
            };
        }
        left -= 1;
    }
    None
}

/// `Xft/DPI` from a property blob, in 1024ths of a dot per inch.
///
/// `None` covers a blob without the setting, a malformed one, and a setting of
/// another type: all mean that the next source is to be taken.
pub fn xft_dpi(blob: &[u8]) -> (raw: Option<i32>)
    ensures
        raw == dpi_of(blob@, Endianness::Little) || raw == dpi_of(blob@, Endianness::Big),
        blob@.len() > 0 && (blob@[0] == LITTLE_ENDIAN || blob@[0] == BIG_ENDIAN) ==> forall|
            host: Endianness,
        |
            raw == #[trigger] dpi_of(blob@, host),
{
    xft_dpi_on(blob, Endianness::native())
}

// -- What is written is what is read --------------------------------------

/// A setting to write.
pub ghost enum Payload {
    Integer(i32),
    Text(Seq<u8>),
    Color(Seq<u8>),
}

/// A named setting to write.
pub ghost struct SettingModel {
    pub name: Seq<u8>,
    pub payload: Payload,
    pub serial: int,
}

impl SettingModel {
    /// Whether the format can hold the setting.
    pub open spec fn fits(self) -> bool {
        &&& self.name.len() < 0x1_0000
        &&& 0 <= self.serial < 0x1_0000_0000
        &&& match self.payload {
            Payload::Integer(_) => true,
            Payload::Text(t) => t.len() < 0x1_0000_0000,
            Payload::Color(c) => c.len() == 8,
        }
    }
}

/// `n` as two bytes.
pub open spec fn word16(n: int, order: Endianness) -> Seq<u8> {
    let low = (n % 0x100) as u8;
    let high = (n / 0x100) as u8;
    match order {
        Endianness::Little => seq![low, high],
        Endianness::Big => seq![high, low],
    }
}

/// `n` as four bytes.
pub open spec fn word32(n: int, order: Endianness) -> Seq<u8> {
    let a = (n % 0x100) as u8;
    let b = ((n / 0x100) % 0x100) as u8;
    let c = ((n / 0x1_0000) % 0x100) as u8;
    let d = (n / 0x100_0000) as u8;
    match order {
        Endianness::Little => seq![a, b, c, d],
        Endianness::Big => seq![d, c, b, a],
    }
}

/// `n` zero bytes.
pub open spec fn zeros(n: int) -> Seq<u8> {
    Seq::new(n as nat, |i: int| 0u8)
}

/// The type tag and the encoded value of a payload.
pub open spec fn payload_bytes(p: Payload, order: Endianness) -> (u8, Seq<u8>) {
    match p {
        Payload::Integer(v) => (
            TYPE_INTEGER,
            word32(
                if v < 0 {
                    v + 0x1_0000_0000
                } else {
                    v as int
                },
                order,
            ),
        ),
        Payload::Text(t) => (
            TYPE_STRING,
            word32(t.len() as int, order) + t + zeros(padding(t.len() as int)),
        ),
        Payload::Color(c) => (TYPE_COLOR, c),
    }
}

/// The bytes of one setting.
pub open spec fn setting_bytes(s: SettingModel, order: Endianness) -> Seq<u8> {
    seq![payload_bytes(s.payload, order).0, 0u8] + word16(s.name.len() as int, order) + s.name
        + zeros(padding(s.name.len() as int)) + word32(s.serial, order) + payload_bytes(
        s.payload,
        order,
    ).1
}

/// The bytes of several settings.
pub open spec fn settings_bytes(settings: Seq<SettingModel>, order: Endianness) -> Seq<u8>
    decreases settings.len(),
{
    if settings.len() == 0 {
        Seq::empty()
    } else {
        setting_bytes(settings[0], order) + settings_bytes(settings.drop_first(), order)
    }
}

/// The byte-order marker of an order.
pub open spec fn marker_of(order: Endianness) -> u8 {
    match order {
        Endianness::Little => LITTLE_ENDIAN,
        Endianness::Big => BIG_ENDIAN,
    }
}

/// A whole blob.
pub open spec fn blob_bytes(serial: int, settings: Seq<SettingModel>, order: Endianness) -> Seq<
    u8,
> {
    seq![marker_of(order), 0u8, 0u8, 0u8] + word32(serial, order) + word32(
        settings.len() as int,
        order,
    ) + settings_bytes(settings, order)
}

/// What the settings say about the DPI: the integer of the first one named
/// `Xft/DPI`, if it is an integer.
pub open spec fn published_dpi(settings: Seq<SettingModel>) -> Option<i32>
    decreases settings.len(),
{
    if settings.len() == 0 {
        None
    } else if settings[0].name == dpi_name() {
        match settings[0].payload {
            Payload::Integer(v) => Some(v),
            _ => None,
        }
    } else {
        published_dpi(settings.drop_first())
    }
}

proof fn lemma_word16(n: int, order: Endianness, rest: Seq<u8>)
    requires
        0 <= n < 0x1_0000,
    ensures
        card16_of(word16(n, order) + rest, order) == n,
        word16(n, order).len() == 2,
{
}

proof fn lemma_word32(n: int, order: Endianness, rest: Seq<u8>)
    requires
        0 <= n < 0x1_0000_0000,
    ensures
        card32_of(word32(n, order) + rest, order) == n,
        word32(n, order).len() == 4,
{
    assert(n / 0x1_0000 == (n / 0x100) / 0x100);
    assert(n / 0x100_0000 == (n / 0x1_0000) / 0x100);
}

/// The part of a setting before its value.
spec fn setting_head(ty: u8, name: Seq<u8>, serial: int, order: Endianness) -> Seq<u8> {
    seq![ty, 0u8] + word16(name.len() as int, order) + name + zeros(padding(name.len() as int))
        + word32(serial, order)
}

proof fn lemma_head_reads_back(
    ty: u8,
    name: Seq<u8>,
    serial: int,
    order: Endianness,
    rest: Seq<u8>,
)
    requires
        name.len() < 0x1_0000,
        0 <= serial < 0x1_0000_0000,
    ensures
        ({
            let b = setting_head(ty, name, serial, order) + rest;
            let n = name.len() as int;
            &&& setting_head(ty, name, serial, order).len() == value_at(n)
            &&& b[0] == ty
            &&& card16_of(b.skip(2), order) == n
            &&& b.subrange(4, 4 + n) == name
            &&& b.skip(value_at(n)) == rest
        }),
{
    let n = name.len() as int;
    let b = setting_head(ty, name, serial, order) + rest;
    let after = name + zeros(padding(n)) + word32(serial, order) + rest;
    assert(0 <= padding(n) < 4);
    lemma_word16(n, order, after);
    lemma_word32(serial, order, rest);
    assert(b.skip(2) =~= word16(n, order) + after);
    assert(b.subrange(4, 4 + n) =~= name);
    assert(b.skip(value_at(n)) =~= rest);
}

/// What a payload decodes to.
spec fn decoded(p: Payload) -> Value {
    match p {
        Payload::Integer(v) => Value::Integer(v),
        _ => Value::Other,
    }
}

proof fn lemma_payload_reads_back(p: Payload, order: Endianness, rest: Seq<u8>)
    requires
        p matches Payload::Text(t) ==> t.len() < 0x1_0000_0000,
        p matches Payload::Color(c) ==> c.len() == 8,
    ensures
        ({
            let (ty, value) = payload_bytes(p, order);
            let word = card32_of(value + rest, order);
            match p {
                Payload::Integer(v) => ty == TYPE_INTEGER && value.len() == 4 && as_signed(word)
                    == v,
                Payload::Text(t) => ty == TYPE_STRING && word == t.len() && value.len() == 4
                    + t.len() + padding(t.len() as int),
                Payload::Color(c) => ty == TYPE_COLOR && value.len() == 8,
            }
        }),
{
    match p {
        Payload::Integer(v) => {
            let u = if v < 0 {
                v + 0x1_0000_0000
            } else {
                v as int
            };
            lemma_word32(u, order, rest);
        },
        Payload::Text(t) => {
            let len = t.len() as int;
            let pad = zeros(padding(len));
            assert(0 <= padding(len) < 4);
            lemma_word32(len, order, t + pad + rest);
            assert(word32(len, order) + t + pad + rest =~= word32(len, order) + (t + pad + rest));
        },
        Payload::Color(c) => {},
    }
}

proof fn lemma_setting_from_parts(
    b: Seq<u8>,
    order: Endianness,
    s: SettingModel,
    value_len: int,
    rest_len: int,
)
    requires
        s.fits(),
        0 <= rest_len,
        ({
            let n = s.name.len() as int;
            let start = value_at(n);
            let word = card32_of(b.skip(start), order);
            &&& b.len() == start + value_len + rest_len
            &&& card16_of(b.skip(2), order) == n
            &&& b.subrange(4, 4 + n) == s.name
            &&& match s.payload {
                Payload::Integer(v) => b[0] == TYPE_INTEGER && value_len == 4 && as_signed(word)
                    == v,
                Payload::Text(t) => b[0] == TYPE_STRING && word == t.len() && value_len == 4
                    + t.len() + padding(t.len() as int),
                Payload::Color(c) => b[0] == TYPE_COLOR && value_len == 8,
            }
        }),
    ensures
        setting_at(b, order) == Some(
            SettingAt {
                name: s.name,
                value: decoded(s.payload),
                len: value_at(s.name.len() as int) + value_len,
            },
        ),
{
    assert(0 <= padding(s.name.len() as int));
}

#[verifier::spinoff_prover]
#[verifier::rlimit(30)]
proof fn lemma_setting_reads_back(s: SettingModel, order: Endianness, rest: Seq<u8>)
    requires
        s.fits(),
    ensures
        setting_at(setting_bytes(s, order) + rest, order) == Some(
            SettingAt {
                name: s.name,
                value: decoded(s.payload),
                len: setting_bytes(s, order).len() as int,
            },
        ),
{
    let ty = payload_bytes(s.payload, order).0;
    let value = payload_bytes(s.payload, order).1;
    let head = setting_head(ty, s.name, s.serial, order);
    let b = setting_bytes(s, order) + rest;
    lemma_head_reads_back(ty, s.name, s.serial, order, value + rest);
    lemma_payload_reads_back(s.payload, order, rest);
    assert(b == head + (value + rest)) by {
        assert(setting_bytes(s, order) == head + value);
        assert(head + value + rest =~= head + (value + rest));
    }
    lemma_setting_from_parts(b, order, s, value.len() as int, rest.len() as int);
}

proof fn lemma_settings_read_back(settings: Seq<SettingModel>, order: Endianness)
    requires
        forall|i: int| 0 <= i < settings.len() ==> (#[trigger] settings[i]).fits(),
    ensures
        dpi_in(settings_bytes(settings, order), order, settings.len() as int) == published_dpi(
            settings,
        ),
    decreases settings.len(),
{
    if settings.len() > 0 {
        let tail = settings.drop_first();
        let rest = settings_bytes(tail, order);
        let first = setting_bytes(settings[0], order);
        lemma_setting_reads_back(settings[0], order, rest);
        assert forall|i: int| 0 <= i < tail.len() implies (#[trigger] tail[i]).fits() by {
            assert(tail[i] == settings[i + 1]);
        }
        lemma_settings_read_back(tail, order);
        assert((first + rest).skip(first.len() as int) == rest);
    }
}

/// The DPI read from a blob is the one its settings publish: other settings are
/// stepped over whatever their type, in either byte order, on any host.
pub proof fn law_published_dpi_is_read_back(
    serial: int,
    settings: Seq<SettingModel>,
    order: Endianness,
    host: Endianness,
)
    requires
        0 <= serial < 0x1_0000_0000,
        settings.len() < 0x1_0000_0000,
        forall|i: int| 0 <= i < settings.len() ==> (#[trigger] settings[i]).fits(),
    ensures
        dpi_of(blob_bytes(serial, settings, order), host) == published_dpi(settings),
{
    let blob = blob_bytes(serial, settings, order);
    let count = settings.len() as int;
    let body = settings_bytes(settings, order);
    lemma_word32(serial, order, word32(count, order) + body);
    lemma_word32(count, order, body);
    assert(blob.skip(HEADER_BYTES as int) == word32(count, order) + body);
    assert(blob.skip(HEADER_BYTES + 4) == body);
    assert(blob[0] == marker_of(order));
    lemma_settings_read_back(settings, order);
}

proof fn lemma_setting_in_a_front(b: Seq<u8>, n: int, order: Endianness)
    requires
        0 <= n <= b.len(),
        setting_at(b.take(n), order) is Some,
    ensures
        setting_at(b, order) == setting_at(b.take(n), order),
        setting_at(b, order)->0.len <= n,
        0 < setting_at(b, order)->0.len,
{
    let front = b.take(n);
    let name_len = card16_of(front.skip(2), order);
    let start = value_at(name_len);
    assert(0 <= padding(name_len) < 4);
    assert(front.skip(2)[0] == b.skip(2)[0] && front.skip(2)[1] == b.skip(2)[1]);
    assert(front.subrange(4, 4 + name_len) =~= b.subrange(4, 4 + name_len));
    if front.len() >= start + 4 {
        assert(front.skip(start)[0] == b.skip(start)[0]);
        assert(front.skip(start)[1] == b.skip(start)[1]);
        assert(front.skip(start)[2] == b.skip(start)[2]);
        assert(front.skip(start)[3] == b.skip(start)[3]);
        assert(0 <= padding(card32_of(b.skip(start), order)) < 4);
    }
}

proof fn lemma_dpi_in_a_front(b: Seq<u8>, n: int, order: Endianness, count: int)
    requires
        0 <= n <= b.len(),
        dpi_in(b.take(n), order, count) is Some,
    ensures
        dpi_in(b, order, count) == dpi_in(b.take(n), order, count),
    decreases count,
{
    lemma_setting_in_a_front(b, n, order);
    let s = setting_at(b, order)->0;
    if s.name != dpi_name() {
        assert(b.take(n).skip(s.len) =~= b.skip(s.len).take(n - s.len));
        lemma_dpi_in_a_front(b.skip(s.len), n - s.len, order, count - 1);
    }
}

/// A blob that was cut short never gives a wrong DPI: it gives none, or the one
/// that the whole blob gives.
pub proof fn law_truncated_blob_gives_no_wrong_dpi(blob: Seq<u8>, n: int, host: Endianness)
    requires
        0 <= n <= blob.len(),
    ensures
        dpi_of(blob.take(n), host) is Some ==> dpi_of(blob.take(n), host) == dpi_of(blob, host),
{
    let front = blob.take(n);
    if dpi_of(front, host) is Some {
        let order = order_of(blob, host);
        let at = HEADER_BYTES as int;
        assert(order_of(front, host) == order);
        assert(front.skip(at)[0] == blob.skip(at)[0]);
        assert(front.skip(at)[1] == blob.skip(at)[1]);
        assert(front.skip(at)[2] == blob.skip(at)[2]);
        assert(front.skip(at)[3] == blob.skip(at)[3]);
        assert(front.skip(at + 4) =~= blob.skip(at + 4).take(n - at - 4));
        lemma_dpi_in_a_front(
            blob.skip(at + 4),
            n - at - 4,
            order,
            card32_of(blob.skip(at), order),
        );
    }
}

// -- The format, byte by byte ------------------------------------------------

/// The bytes of a setting before its value: the type, a byte that is not looked at,
/// the length of the name in two bytes, the name, what fills it up to a multiple of
/// four, and four bytes of serial.
#[verifier::opaque]
spec fn plain_head(
    ty: u8,
    skipped: u8,
    len: Seq<u8>,
    name: Seq<u8>,
    fill: Seq<u8>,
    serial: Seq<u8>,
) -> Seq<u8> {
    seq![ty, skipped] + len + name + fill + serial
}

proof fn lemma_plain_head(
    ty: u8,
    skipped: u8,
    len: Seq<u8>,
    name: Seq<u8>,
    fill: Seq<u8>,
    serial: Seq<u8>,
    after: Seq<u8>,
    order: Endianness,
)
    requires
        len.len() == 2,
        name.len() == card16_of(len, order),
        fill.len() < 4,
        (name.len() + fill.len()) % 4 == 0,
        serial.len() == 4,
    ensures
        ({
            let b = plain_head(ty, skipped, len, name, fill, serial) + after;
            let n = name.len() as int;
            &&& padding(n) == fill.len()
            &&& b.len() == value_at(n) + after.len()
            &&& b[0] == ty
            &&& card16_of(b.skip(2), order) == n
            &&& b.subrange(4, 4 + n) == name
            &&& b.skip(value_at(n)) == after
        }),
{
    reveal(plain_head);
    let b = plain_head(ty, skipped, len, name, fill, serial) + after;
    let n = name.len() as int;
    assert(b.skip(2)[0] == len[0] && b.skip(2)[1] == len[1]);
    assert(padding(n) == fill.len());
    assert(b.subrange(4, 4 + n) =~= name);
    assert(b.skip(value_at(n)) =~= after);
}

/// A first setting of another name is stepped over, be it an integer of four bytes, a
/// string behind its length and filled up to a multiple of four, or a colour of eight
/// bytes: what follows it decides. Fill, serial and value may hold any bytes.
pub proof fn law_other_settings_are_stepped_over(
    skipped: u8,
    len: Seq<u8>,
    name: Seq<u8>,
    fill: Seq<u8>,
    serial: Seq<u8>,
    word: Seq<u8>,
    text: Seq<u8>,
    text_fill: Seq<u8>,
    colour: Seq<u8>,
    rest: Seq<u8>,
    order: Endianness,
    count: int,
)
    requires
        len.len() == 2,
        name.len() == (match order {
            Endianness::Little => len[0] + len[1] * 256,
            Endianness::Big => len[0] * 256 + len[1],
        }),
        name != seq![0x58u8, 0x66u8, 0x74u8, 0x2fu8, 0x44u8, 0x50u8, 0x49u8],
        fill.len() < 4,
        (name.len() + fill.len()) % 4 == 0,
        serial.len() == 4,
        word.len() == 4,
        text.len() == (match order {
            Endianness::Little => word[0] + word[1] * 256 + word[2] * 65536 + word[3] * 16777216,
            Endianness::Big => word[0] * 16777216 + word[1] * 65536 + word[2] * 256 + word[3],
        }),
        text_fill.len() < 4,
        (text.len() + text_fill.len()) % 4 == 0,
        colour.len() == 8,
        0 <= count,
    ensures
        dpi_in(
            (seq![0u8, skipped] + len + name + fill + serial) + (word + rest),
            order,
            count + 1,
        ) == dpi_in(rest, order, count),
        dpi_in(
            (seq![1u8, skipped] + len + name + fill + serial) + (word + text + text_fill + rest),
            order,
            count + 1,
        ) == dpi_in(rest, order, count),
        dpi_in(
            (seq![2u8, skipped] + len + name + fill + serial) + (colour + rest),
            order,
            count + 1,
        ) == dpi_in(rest, order, count),
{
    reveal(plain_head);
    assert(dpi_name() =~= seq![0x58u8, 0x66u8, 0x74u8, 0x2fu8, 0x44u8, 0x50u8, 0x49u8]);
    lemma_integer_is_stepped_over(skipped, len, name, fill, serial, word, rest, order, count);
    lemma_string_is_stepped_over(
        skipped,
        len,
        name,
        fill,
        serial,
        word,
        text,
        text_fill,
        rest,
        order,
        count,
    );
    lemma_colour_is_stepped_over(skipped, len, name, fill, serial, colour, rest, order, count);
}

proof fn lemma_integer_is_stepped_over(
    skipped: u8,
    len: Seq<u8>,
    name: Seq<u8>,
    fill: Seq<u8>,
    serial: Seq<u8>,
    word: Seq<u8>,
    rest: Seq<u8>,
    order: Endianness,
    count: int,
)
    requires
        len.len() == 2,
        name.len() == card16_of(len, order),
        name != dpi_name(),
        fill.len() < 4,
        (name.len() + fill.len()) % 4 == 0,
        serial.len() == 4,
        word.len() == 4,
        0 <= count,
    ensures
        dpi_in(plain_head(0, skipped, len, name, fill, serial) + (word + rest), order, count + 1)
            == dpi_in(rest, order, count),
{
    let n = name.len() as int;
    let after = word + rest;
    let b = plain_head(0, skipped, len, name, fill, serial) + after;
    lemma_plain_head(0, skipped, len, name, fill, serial, after, order);
    assert(b.skip(value_at(n) + 4) =~= b.skip(value_at(n)).skip(4));
    assert(after.skip(4) =~= rest);
    assert(setting_at(b, order) matches Some(s) && s.name == name && s.len == value_at(n) + 4);
}

proof fn lemma_string_is_stepped_over(
    skipped: u8,
    len: Seq<u8>,
    name: Seq<u8>,
    fill: Seq<u8>,
    serial: Seq<u8>,
    word: Seq<u8>,
    text: Seq<u8>,
    text_fill: Seq<u8>,
    rest: Seq<u8>,
    order: Endianness,
    count: int,
)
    requires
        len.len() == 2,
        name.len() == card16_of(len, order),
        name != dpi_name(),
        fill.len() < 4,
        (name.len() + fill.len()) % 4 == 0,
        serial.len() == 4,
        word.len() == 4,
        text.len() == card32_of(word, order),
        text_fill.len() < 4,
        (text.len() + text_fill.len()) % 4 == 0,
        0 <= count,
    ensures
        dpi_in(
            plain_head(1, skipped, len, name, fill, serial) + (word + text + text_fill + rest),
            order,
            count + 1,
        ) == dpi_in(rest, order, count),
{
    let n = name.len() as int;
    let t = text.len() as int;
    let after = word + text + text_fill + rest;
    let b = plain_head(1, skipped, len, name, fill, serial) + after;
    lemma_plain_head(1, skipped, len, name, fill, serial, after, order);
    assert(after[0] == word[0] && after[1] == word[1] && after[2] == word[2] && after[3]
        == word[3]);
    assert(card32_of(after, order) == t);
    assert(padding(t) == text_fill.len());
    let end = 4 + t + padding(t);
    assert(b.skip(value_at(n) + end) =~= b.skip(value_at(n)).skip(end));
    assert(after.skip(end) =~= rest);
    assert(setting_at(b, order) matches Some(s) && s.name == name && s.len == value_at(n) + end);
}

proof fn lemma_colour_is_stepped_over(
    skipped: u8,
    len: Seq<u8>,
    name: Seq<u8>,
    fill: Seq<u8>,
    serial: Seq<u8>,
    colour: Seq<u8>,
    rest: Seq<u8>,
    order: Endianness,
    count: int,
)
    requires
        len.len() == 2,
        name.len() == card16_of(len, order),
        name != dpi_name(),
        fill.len() < 4,
        (name.len() + fill.len()) % 4 == 0,
        serial.len() == 4,
        colour.len() == 8,
        0 <= count,
    ensures
        dpi_in(plain_head(2, skipped, len, name, fill, serial) + (colour + rest), order, count + 1)
            == dpi_in(rest, order, count),
{
    let n = name.len() as int;
    let after = colour + rest;
    let b = plain_head(2, skipped, len, name, fill, serial) + after;
    lemma_plain_head(2, skipped, len, name, fill, serial, after, order);
    assert(b.skip(value_at(n) + 8) =~= b.skip(value_at(n)).skip(8));
    assert(after.skip(8) =~= rest);
    assert(setting_at(b, order) matches Some(s) && s.name == name && s.len == value_at(n) + 8);
}

/// A first setting named `Xft/DPI` decides: an integer is returned as it is, negative
/// ones too, and with another type of value there is none, whatever follows.
pub proof fn law_dpi_setting_decides(
    ty: u8,
    skipped: u8,
    fill: u8,
    serial: Seq<u8>,
    word: Seq<u8>,
    rest: Seq<u8>,
    order: Endianness,
    count: int,
)
    requires
        serial.len() == 4,
        word.len() == 4,
        1 <= count,
    ensures
        ({
            let len: Seq<u8> = match order {
                Endianness::Little => seq![7u8, 0u8],
                Endianness::Big => seq![0u8, 7u8],
            };
            let name: Seq<u8> = seq![0x58u8, 0x66u8, 0x74u8, 0x2fu8, 0x44u8, 0x50u8, 0x49u8];
            let value = match order {
                Endianness::Little => word[0] + word[1] * 256 + word[2] * 65536 + word[3]
                    * 16777216,
                Endianness::Big => word[0] * 16777216 + word[1] * 65536 + word[2] * 256 + word[3],
            };
            let raw = dpi_in(
                (seq![0u8, skipped] + len + name + seq![fill] + serial) + (word + rest),
                order,
                count,
            );
            &&& raw is Some
            &&& value < 0x8000_0000 ==> raw->0 == value
            &&& value >= 0x8000_0000 ==> raw->0 == value - 0x1_0000_0000
            &&& ty != 0 ==> dpi_in(
                (seq![ty, skipped] + len + name + seq![fill] + serial) + rest,
                order,
                count,
            ) is None
        }),
{
    let len: Seq<u8> = match order {
        Endianness::Little => seq![7u8, 0u8],
        Endianness::Big => seq![0u8, 7u8],
    };
    let name: Seq<u8> = seq![0x58u8, 0x66u8, 0x74u8, 0x2fu8, 0x44u8, 0x50u8, 0x49u8];
    assert(card16_of(len, order) == 7);
    assert(dpi_name() =~= name);
    lemma_dpi_setting(ty, skipped, len, seq![fill], serial, word, rest, order, count);
    assert(plain_head(0, skipped, len, name, seq![fill], serial) == seq![0u8, skipped] + len + name
        + seq![fill] + serial) by {
        reveal(plain_head);
    }
    assert(plain_head(ty, skipped, len, name, seq![fill], serial) == seq![ty, skipped] + len + name
        + seq![fill] + serial) by {
        reveal(plain_head);
    }
}

proof fn lemma_dpi_setting(
    ty: u8,
    skipped: u8,
    len: Seq<u8>,
    fill: Seq<u8>,
    serial: Seq<u8>,
    word: Seq<u8>,
    rest: Seq<u8>,
    order: Endianness,
    count: int,
)
    requires
        len.len() == 2,
        card16_of(len, order) == 7,
        fill.len() == 1,
        serial.len() == 4,
        word.len() == 4,
        1 <= count,
    ensures
        dpi_in(
            plain_head(0, skipped, len, dpi_name(), fill, serial) + (word + rest),
            order,
            count,
        ) == Some(as_signed(card32_of(word, order)) as i32),
        ty != 0 ==> dpi_in(
            plain_head(ty, skipped, len, dpi_name(), fill, serial) + rest,
            order,
            count,
        ) is None,
{
    let after = word + rest;
    lemma_plain_head(0, skipped, len, dpi_name(), fill, serial, after, order);
    assert(after[0] == word[0] && after[1] == word[1] && after[2] == word[2] && after[3]
        == word[3]);
    assert(card32_of(after, order) == card32_of(word, order));
    lemma_plain_head(ty, skipped, len, dpi_name(), fill, serial, rest, order);
}

/// A blob is read in the order that its first byte names, `l` or `B`, and in the
/// host's where it names none; three bytes and the serial are not looked at, and the
/// settings begin behind their count.
pub proof fn law_header_names_the_order(
    marker: u8,
    skipped: Seq<u8>,
    count: Seq<u8>,
    body: Seq<u8>,
    host: Endianness,
)
    requires
        skipped.len() == 7,
        count.len() == 4,
    ensures
        ({
            let blob = seq![marker] + skipped + count + body;
            let little = count[0] + count[1] * 256 + count[2] * 65536 + count[3] * 16777216;
            let big = count[0] * 16777216 + count[1] * 65536 + count[2] * 256 + count[3];
            &&& marker == 0x6c ==> dpi_of(blob, host) == dpi_in(body, Endianness::Little, little)
            &&& marker == 0x42 ==> dpi_of(blob, host) == dpi_in(body, Endianness::Big, big)
            &&& marker != 0x6c && marker != 0x42 ==> dpi_of(blob, host) == match host {
                Endianness::Little => dpi_in(body, Endianness::Little, little),
                Endianness::Big => dpi_in(body, Endianness::Big, big),
            }
        }),
        forall|blob: Seq<u8>| #[trigger] dpi_of(blob, host) is Some ==> blob.len() >= 12,
        dpi_in(body, host, 0) is None,
{
    let blob = seq![marker] + skipped + count + body;
    assert(blob.skip(12) =~= body);
    let rest = blob.skip(8);
    assert(rest[0] == count[0] && rest[1] == count[1] && rest[2] == count[2] && rest[3]
        == count[3]);
}

/// Padding fills a field up to the next multiple of four, and adds nothing to one that
/// is such a multiple.
pub proof fn law_padding_fills_up_to_a_word(len: int)
    requires
        0 <= len,
    ensures
        0 <= padding(len) < 4,
        (len + padding(len)) % 4 == 0,
{
}

} // verus!
