//! Classification of the two Linux event sources.
//!
//! Display hot-plug arrives as a kernel uevent datagram: a header line and
//! NUL-separated `KEY=VALUE` entries, one for every device change in the system.
//! Suspend and resume arrive as one logind signal that carries a boolean.

use vstd::prelude::*;
use vstd::slice::slice_subrange;

use crate::PlatformEvent;

verus! {

/// The first position at or after `from` where `byte` stands in `s`, or the
/// length.
pub open spec fn first_byte(s: Seq<u8>, byte: u8, from: int) -> int
    decreases s.len() - from,
{
    if from < 0 || from >= s.len() || s[from] == byte {
        from
    } else {
        first_byte(s, byte, from + 1)
    }
}

/// `first_byte` stays within the sequence.
pub proof fn lemma_first_byte(s: Seq<u8>, byte: u8, from: int)
    requires
        0 <= from <= s.len(),
    ensures
        from <= first_byte(s, byte, from) <= s.len(),
    decreases s.len() - from,
{
    if from < s.len() && s[from] != byte {
        lemma_first_byte(s, byte, from + 1);
    }
}

/// The value an entry gives `key`: what follows the first equals sign, where
/// `key` is what precedes it. An entry that is not UTF-8 gives nothing.
pub open spec fn entry_value(entry: Seq<u8>, key: Seq<u8>) -> Option<Seq<u8>> {
    let eq = first_byte(entry, 0x3d, 0);
    if vstd::utf8::valid_utf8(entry) && eq < entry.len() && entry.take(eq) == key {
        Some(entry.skip(eq + 1))
    } else {
        None
    }
}

/// The value of `key` after reading the entries from `from` on, given what the
/// earlier ones said: a later entry overrides an earlier one.
pub open spec fn value_after(
    datagram: Seq<u8>,
    key: Seq<u8>,
    from: int,
    earlier: Option<Seq<u8>>,
) -> Option<Seq<u8>>
    decreases datagram.len() - from,
{
    if from < 0 || from > datagram.len() {
        earlier
    } else {
        let end = first_byte(datagram, 0, from);
        proof {
            lemma_first_byte(datagram, 0, from);
        }
        let so_far = match entry_value(datagram.subrange(from, end), key) {
            Some(value) => Some(value),
            None => earlier,
        };
        if end >= datagram.len() {
            so_far
        } else {
            value_after(datagram, key, end + 1, so_far)
        }
    }
}

/// The value a datagram gives `key`.
pub open spec fn field(datagram: Seq<u8>, key: Seq<u8>) -> Option<Seq<u8>> {
    value_after(datagram, key, 0, None)
}

/// Whether an action on a `drm` device changes the display set. The others are
/// driver-lifecycle events.
pub open spec fn changes_displays(action: Seq<u8>) -> bool {
    ||| action == vstd::utf8::encode_utf8("change"@)
    ||| action == vstd::utf8::encode_utf8("add"@)
    ||| action == vstd::utf8::encode_utf8("remove"@)
}

/// Whether a datagram reports a display change.
pub open spec fn is_display_change(datagram: Seq<u8>) -> bool {
    &&& field(datagram, vstd::utf8::encode_utf8("SUBSYSTEM"@)) == Some(
        vstd::utf8::encode_utf8("drm"@),
    )
    &&& field(datagram, vstd::utf8::encode_utf8("ACTION"@)) matches Some(action)
    &&& changes_displays(action)
}

/// `std::str::from_utf8` accepts exactly the bytes that are valid UTF-8.
#[verifier::external_body]
fn is_utf8(bytes: &[u8]) -> (yes: bool)
    ensures
        yes == vstd::utf8::valid_utf8(bytes@),
{
    std::str::from_utf8(bytes).is_ok()
}

fn same_bytes(a: &[u8], b: &[u8]) -> (same: bool)
    ensures
        same == (a@ == b@),
{
    if a.len() != b.len() {
        return false;
    }
    let mut i: usize = 0;
    while i < a.len()
        invariant
            a.len() == b.len(),
            i <= a.len(),
            forall|j: int| 0 <= j < i ==> a@[j] == b@[j],
        decreases a.len() - i,
    {
        if a[i] != b[i] {
            assert(a@[i as int] != b@[i as int]);
            return false;
        }
        i += 1;
    }
    assert(a@ =~= b@);
    true
}

fn index_of_byte(s: &[u8], byte: u8, from: usize) -> (at: usize)
    requires
        from <= s@.len(),
    ensures
        at == first_byte(s@, byte, from as int),
        from <= at <= s@.len(),
{
    let mut i: usize = from;
    while i < s.len() && s[i] != byte
        invariant
            from <= i <= s@.len(),
            first_byte(s@, byte, from as int) == first_byte(s@, byte, i as int),
        decreases s@.len() - i,
    {
        i += 1;
    }
    i
}

/// The value an entry gives `key`, as positions in the entry.
fn value_of_entry<'a>(entry: &'a [u8], key: &[u8]) -> (value: Option<&'a [u8]>)
    ensures
        match value {
            Some(v) => entry_value(entry@, key@) == Some(v@),
            None => entry_value(entry@, key@) is None,
        },
{
    if !is_utf8(entry) {
        return None;
    }
    let eq: usize = index_of_byte(entry, 0x3d, 0);
    if eq >= entry.len() {
        return None;
    }
    assert(entry@.subrange(0, eq as int) =~= entry@.take(eq as int));
    assert(entry@.subrange(eq + 1, entry@.len() as int) =~= entry@.skip(eq + 1));
    if same_bytes(slice_subrange(entry, 0, eq), key) {
        Some(slice_subrange(entry, eq + 1, entry.len()))
    } else {
        None
    }
}

/// A slice that may be absent, as its bytes.
pub open spec fn opt_bytes(bytes: Option<&[u8]>) -> Option<Seq<u8>> {
    match bytes {
        Some(b) => Some(b@),
        None => None,
    }
}

/// The value a datagram gives `key`; the last entry that gives one counts.
pub fn fields<'a>(datagram: &'a [u8], key: &[u8]) -> (value: Option<&'a [u8]>)
    ensures
        opt_bytes(value) == field(datagram@, key@),
        match value {
            Some(v) => field(datagram@, key@) == Some(v@),
            None => field(datagram@, key@) is None,
        },
{
    let mut found: Option<&'a [u8]> = None;
    let mut from: usize = 0;
    loop
        invariant
            from <= datagram@.len(),
            field(datagram@, key@) == value_after(
                datagram@,
                key@,
                from as int,
                opt_bytes(found),
            ),
        decreases datagram@.len() - from,
    {
        let end: usize = index_of_byte(datagram, 0, from);
        match value_of_entry(slice_subrange(datagram, from, end), key) {
            Some(value) => {
                found = Some(value);
            },
            None => {},
        }
        if end >= datagram.len() {
            return found;
        }
        from = end + 1;
    }
}

/// Classify one raw uevent datagram: `DisplaysChanged` for a `drm` event that
/// changed the display set, `None` for everything else.
pub fn classify_uevent(datagram: &[u8]) -> (event: Option<PlatformEvent>)
    ensures
        event == (if is_display_change(datagram@) {
            Some(PlatformEvent::DisplaysChanged)
        } else {
            None
        }),
{
    match fields(datagram, "SUBSYSTEM".as_bytes()) {
        None => return None,
        Some(subsystem) => if !same_bytes(subsystem, "drm".as_bytes()) {
            return None;
        },
    }
    match fields(datagram, "ACTION".as_bytes()) {
        None => None,
        Some(action) => if same_bytes(action, "change".as_bytes()) || same_bytes(
            action,
            "add".as_bytes(),
        ) || same_bytes(action, "remove".as_bytes()) {
            Some(PlatformEvent::DisplaysChanged)
        } else {
            None
        },
    }
}

/// Classify logind's `PrepareForSleep`: `true` before the system goes down,
/// `false` once it is back.
pub fn classify_prepare_for_sleep(going_to_sleep: bool) -> (event: PlatformEvent)
    ensures
        event == (if going_to_sleep {
            PlatformEvent::Suspending
        } else {
            PlatformEvent::Resumed
        }),
{
    if going_to_sleep {
        PlatformEvent::Suspending
    } else {
        PlatformEvent::Resumed
    }
}

/// A datagram without both keys is no display change.
pub proof fn law_both_keys_are_required(datagram: Seq<u8>)
    requires
        field(datagram, vstd::utf8::encode_utf8("SUBSYSTEM"@)) is None || field(
            datagram,
            vstd::utf8::encode_utf8("ACTION"@),
        ) is None,
    ensures
        !is_display_change(datagram),
{
}

/// An entry whose bytes are not UTF-8 changes nothing: neither does it match nor
/// does it hide what the others say.
pub proof fn law_malformed_entry_is_skipped(
    datagram: Seq<u8>,
    key: Seq<u8>,
    from: int,
    earlier: Option<Seq<u8>>,
)
    requires
        0 <= from <= datagram.len(),
        first_byte(datagram, 0, from) < datagram.len(),
        !vstd::utf8::valid_utf8(datagram.subrange(from, first_byte(datagram, 0, from))),
    ensures
        value_after(datagram, key, from, earlier) == value_after(
            datagram,
            key,
            first_byte(datagram, 0, from) + 1,
            earlier,
        ),
{
    lemma_first_byte(datagram, 0, from);
}

proof fn lemma_first_byte_stops(s: Seq<u8>, byte: u8, from: int, at: int)
    requires
        0 <= from <= at <= s.len(),
        forall|i: int| from <= i < at ==> s[i] != byte,
        at == s.len() || s[at] == byte,
    ensures
        first_byte(s, byte, from) == at,
    decreases at - from,
{
    if from < at {
        lemma_first_byte_stops(s, byte, from + 1, at);
    }
}

/// The bytes of entries, each closed by a NUL.
pub open spec fn joined(entries: Seq<Seq<u8>>) -> Seq<u8>
    decreases entries.len(),
{
    if entries.len() == 0 {
        Seq::empty()
    } else {
        entries[0] + seq![0u8] + joined(entries.drop_first())
    }
}

/// Whether none of the entries holds a NUL.
pub open spec fn nul_free(entries: Seq<Seq<u8>>) -> bool {
    forall|i: int, k: int|
        0 <= i < entries.len() && 0 <= k < entries[i].len() ==> #[trigger] entries[i][k] != 0
}

/// The value the last entry that gives `key` one gives it.
pub open spec fn last_value(entries: Seq<Seq<u8>>, key: Seq<u8>, earlier: Option<Seq<u8>>) -> Option<
    Seq<u8>,
>
    decreases entries.len(),
{
    if entries.len() == 0 {
        earlier
    } else {
        last_value(
            entries.drop_first(),
            key,
            match entry_value(entries[0], key) {
                Some(value) => Some(value),
                None => earlier,
            },
        )
    }
}

proof fn lemma_joined_reads_back(
    front: Seq<u8>,
    entries: Seq<Seq<u8>>,
    open: Seq<u8>,
    key: Seq<u8>,
    earlier: Option<Seq<u8>>,
)
    requires
        nul_free(entries),
        forall|k: int| 0 <= k < open.len() ==> open[k] != 0,
    ensures
        value_after(front + (joined(entries) + open), key, front.len() as int, earlier)
            == last_value(entries.push(open), key, earlier),
    decreases entries.len(),
{
    let s = front + (joined(entries) + open);
    let from = front.len() as int;
    let all = entries.push(open);
    if entries.len() == 0 {
        let end = from + open.len();
        assert forall|i: int| from <= i < end implies s[i] != 0 by {
            assert(s[i] == open[i - from]);
        }
        lemma_first_byte_stops(s, 0, from, end);
        assert(s.subrange(from, end) =~= open);
        assert(all[0] == open);
        let so_far = match entry_value(open, key) {
            Some(value) => Some(value),
            None => earlier,
        };
        assert(last_value(all.drop_first(), key, so_far) == so_far);
    } else {
        let first = entries[0];
        let rest = entries.drop_first();
        let next = front + first + seq![0u8];
        assert(s =~= next + (joined(rest) + open));
        let end = from + first.len();
        assert forall|i: int| from <= i < end implies s[i] != 0 by {
            assert(s[i] == entries[0][i - from]);
        }
        assert(s[end] == 0);
        lemma_first_byte_stops(s, 0, from, end);
        assert(s.subrange(from, end) =~= first);
        assert forall|i: int, k: int|
            0 <= i < rest.len() && 0 <= k < rest[i].len() implies #[trigger] rest[i][k] != 0 by {
            assert(rest[i] == entries[i + 1]);
            assert(entries[i + 1][k] != 0);
        }
        assert(all[0] == first);
        assert(all.drop_first() =~= rest.push(open));
        lemma_joined_reads_back(
            next,
            rest,
            open,
            key,
            match entry_value(first, key) {
                Some(value) => Some(value),
                None => earlier,
            },
        );
    }
}

proof fn lemma_last_value_of_one_more(
    entries: Seq<Seq<u8>>,
    last: Seq<u8>,
    key: Seq<u8>,
    earlier: Option<Seq<u8>>,
)
    ensures
        last_value(entries.push(last), key, earlier) == match entry_value(last, key) {
            Some(value) => Some(value),
            None => last_value(entries, key, earlier),
        },
    decreases entries.len(),
{
    let all = entries.push(last);
    if entries.len() == 0 {
        assert(all[0] == last);
        let so_far = match entry_value(last, key) {
            Some(value) => Some(value),
            None => earlier,
        };
        assert(last_value(all.drop_first(), key, so_far) == so_far);
    } else {
        assert(all[0] == entries[0]);
        assert(all.drop_first() =~= entries.drop_first().push(last));
        lemma_last_value_of_one_more(
            entries.drop_first(),
            last,
            key,
            match entry_value(entries[0], key) {
                Some(value) => Some(value),
                None => earlier,
            },
        );
    }
}

/// A datagram in the kernel's wire format reads back entry by entry: where an
/// entry stands does not matter, except that a later one for the same key wins.
pub proof fn law_datagram_reads_back(entries: Seq<Seq<u8>>, key: Seq<u8>)
    requires
        nul_free(entries),
    ensures
        field(joined(entries), key) == last_value(entries, key, None),
{
    let empty = Seq::<u8>::empty();
    lemma_joined_reads_back(empty, entries, empty, key, None);
    assert(empty + (joined(entries) + empty) =~= joined(entries));
    lemma_last_value_of_one_more(entries, empty, key, None);
}

/// It does not matter whether the last entry is closed by a NUL.
pub proof fn law_closing_nul_does_not_matter(entries: Seq<Seq<u8>>, last: Seq<u8>, key: Seq<u8>)
    requires
        nul_free(entries),
        forall|k: int| 0 <= k < last.len() ==> last[k] != 0,
    ensures
        field(joined(entries) + last, key) == field(joined(entries) + last + seq![0u8], key),
        is_display_change(joined(entries) + last) == is_display_change(
            joined(entries) + last + seq![0u8],
        ),
{
    lemma_closing_nul(entries, last, key);
    lemma_closing_nul(entries, last, vstd::utf8::encode_utf8("SUBSYSTEM"@));
    lemma_closing_nul(entries, last, vstd::utf8::encode_utf8("ACTION"@));
}

proof fn lemma_joined_of_one_more(entries: Seq<Seq<u8>>, last: Seq<u8>)
    ensures
        joined(entries.push(last)) == joined(entries) + last + seq![0u8],
    decreases entries.len(),
{
    let all = entries.push(last);
    if entries.len() == 0 {
        assert(all[0] == last);
        assert(joined(all.drop_first()) =~= Seq::<u8>::empty());
        assert(joined(all) =~= joined(entries) + last + seq![0u8]);
    } else {
        assert(all[0] == entries[0]);
        assert(all.drop_first() =~= entries.drop_first().push(last));
        lemma_joined_of_one_more(entries.drop_first(), last);
        assert(joined(all) =~= joined(entries) + last + seq![0u8]);
    }
}

proof fn lemma_closing_nul(entries: Seq<Seq<u8>>, last: Seq<u8>, key: Seq<u8>)
    requires
        nul_free(entries),
        forall|k: int| 0 <= k < last.len() ==> last[k] != 0,
    ensures
        field(joined(entries) + last, key) == field(joined(entries) + last + seq![0u8], key),
{
    let all = entries.push(last);
    assert(nul_free(all)) by {
        assert forall|i: int, k: int|
            0 <= i < all.len() && 0 <= k < all[i].len() implies #[trigger] all[i][k] != 0 by {
            if i < entries.len() {
                assert(entries[i][k] != 0);
            }
        }
    }
    law_datagram_reads_back(all, key);
    lemma_joined_of_one_more(entries, last);
    lemma_joined_reads_back(Seq::empty(), entries, last, key, None);
    assert(Seq::<u8>::empty() + (joined(entries) + last) =~= joined(entries) + last);
}

// -- What decides ------------------------------------------------------------

/// Whether entry `at` is the last that begins with `prefix`, entries that are not
/// UTF-8 not counted.
pub open spec fn is_last_with(entries: Seq<Seq<u8>>, prefix: Seq<u8>, at: int) -> bool {
    &&& 0 <= at < entries.len()
    &&& vstd::utf8::valid_utf8(entries[at]) && prefix.is_prefix_of(entries[at])
    &&& forall|k: int|
        at < k < entries.len() && vstd::utf8::valid_utf8(#[trigger] entries[k])
            ==> !prefix.is_prefix_of(entries[k])
}

proof fn lemma_entry_value_by_prefix(entry: Seq<u8>, key: Seq<u8>)
    requires
        forall|i: int| 0 <= i < key.len() ==> key[i] != 0x3d,
    ensures
        entry_value(entry, key) == (if vstd::utf8::valid_utf8(entry) && (key + seq![
            0x3du8,
        ]).is_prefix_of(entry) {
            Some(entry.skip(key.len() as int + 1))
        } else {
            None
        }),
{
    let eq = first_byte(entry, 0x3d, 0);
    let prefix = key + seq![0x3du8];
    lemma_first_byte(entry, 0x3d, 0);
    lemma_first_byte_is_first(entry, 0x3d, 0);
    if prefix.is_prefix_of(entry) {
        assert forall|i: int| 0 <= i < key.len() implies entry[i] == key[i] by {
            assert(entry[i] == prefix[i]);
        }
        assert(entry[key.len() as int] == prefix[key.len() as int]);
        lemma_first_byte_stops(entry, 0x3d, 0, key.len() as int);
        assert(entry.take(eq) =~= key);
    } else if eq < entry.len() && entry.take(eq) == key {
        assert(entry.take(prefix.len() as int) =~= prefix);
        assert(prefix.is_prefix_of(entry));
    }
}

proof fn lemma_first_byte_is_first(s: Seq<u8>, byte: u8, from: int)
    requires
        0 <= from <= s.len(),
    ensures
        first_byte(s, byte, from) < s.len() ==> s[first_byte(s, byte, from)] == byte,
    decreases s.len() - from,
{
    if from < s.len() && s[from] != byte {
        lemma_first_byte_is_first(s, byte, from + 1);
    }
}

proof fn lemma_last_value_by_prefix(entries: Seq<Seq<u8>>, key: Seq<u8>, at: int)
    requires
        forall|i: int| 0 <= i < key.len() ==> key[i] != 0x3d,
    ensures
        is_last_with(entries, key + seq![0x3du8], at) ==> last_value(entries, key, None) == Some(
            entries[at].skip(key.len() as int + 1),
        ),
        last_value(entries, key, None) is Some ==> exists|a: int|
            is_last_with(entries, key + seq![0x3du8], a),
    decreases entries.len(),
{
    let prefix = key + seq![0x3du8];
    if entries.len() > 0 {
        let front = entries.drop_last();
        let last = entries.last();
        assert(entries =~= front.push(last));
        lemma_last_value_of_one_more(front, last, key, None);
        lemma_entry_value_by_prefix(last, key);
        lemma_last_value_by_prefix(front, key, at);
        let n = entries.len() - 1;
        assert forall|k: int| 0 <= k < n implies front[k] == entries[k] by {}
        if vstd::utf8::valid_utf8(last) && prefix.is_prefix_of(last) {
            assert(entries[n] == last);
            assert(is_last_with(entries, prefix, n));
        } else {
            if is_last_with(entries, prefix, at) {
                assert(at < n);
                assert(is_last_with(front, prefix, at));
            }
            if last_value(front, key, None) is Some {
                let a = choose|a: int| is_last_with(front, prefix, a);
                assert(is_last_with(entries, prefix, a));
            }
        }
    }
}

proof fn lemma_encoding_joins(a: Seq<char>, b: Seq<char>)
    ensures
        vstd::utf8::encode_utf8(a + b) == vstd::utf8::encode_utf8(a) + vstd::utf8::encode_utf8(b),
    decreases a.len(),
{
    if a.len() == 0 {
        assert(a + b =~= b);
        assert(vstd::utf8::encode_utf8(a) + vstd::utf8::encode_utf8(b)
            =~= vstd::utf8::encode_utf8(b));
    } else {
        assert((a + b).drop_first() =~= a.drop_first() + b);
        lemma_encoding_joins(a.drop_first(), b);
        assert(vstd::utf8::encode_utf8(a + b) =~= vstd::utf8::encode_utf8(a)
            + vstd::utf8::encode_utf8(b));
    }
}

/// The encoding of `key=`, and that a plain key's own encoding holds no equals sign.
proof fn lemma_key_bytes(key: Seq<char>)
    requires
        forall|i: int| 0 <= i < key.len() ==> 'A' <= #[trigger] key[i] <= 'Z',
    ensures
        vstd::utf8::encode_utf8(key + seq!['=']) == vstd::utf8::encode_utf8(key) + seq![0x3du8],
        forall|i: int|
            0 <= i < vstd::utf8::encode_utf8(key).len() ==> vstd::utf8::encode_utf8(key)[i] != 0x3d,
{
    assert(vstd::utf8::is_ascii_chars(key));
    vstd::utf8::is_ascii_chars_encode_utf8(key);
    let bytes = vstd::utf8::encode_utf8(key);
    assert forall|i: int| 0 <= i < bytes.len() implies bytes[i] != 0x3d by {
        let c: char = key[i];
        assert('A' <= c <= 'Z');
        assert(bytes[i] == c as u8);
    }
    let sign = seq!['='];
    assert(vstd::utf8::is_ascii_chars(sign));
    vstd::utf8::is_ascii_chars_encode_utf8(sign);
    assert(sign[0] == '=');
    assert(vstd::utf8::encode_utf8(sign) =~= seq![0x3du8]);
    lemma_encoding_joins(key, sign);
}

proof fn lemma_uevent_keys()
    ensures
        "SUBSYSTEM="@ == "SUBSYSTEM"@ + seq!['='],
        "ACTION="@ == "ACTION"@ + seq!['='],
        forall|i: int| 0 <= i < "SUBSYSTEM"@.len() ==> 'A' <= #[trigger] "SUBSYSTEM"@[i] <= 'Z',
        forall|i: int| 0 <= i < "ACTION"@.len() ==> 'A' <= #[trigger] "ACTION"@[i] <= 'Z',
        "SUBSYSTEM=drm"@ == "SUBSYSTEM="@ + "drm"@,
        "ACTION=change"@ == "ACTION="@ + "change"@,
        "ACTION=add"@ == "ACTION="@ + "add"@,
        "ACTION=remove"@ == "ACTION="@ + "remove"@,
{
    reveal_strlit("SUBSYSTEM");
    reveal_strlit("SUBSYSTEM=");
    reveal_strlit("SUBSYSTEM=drm");
    reveal_strlit("drm");
    reveal_strlit("ACTION");
    reveal_strlit("ACTION=");
    reveal_strlit("ACTION=change");
    reveal_strlit("ACTION=add");
    reveal_strlit("ACTION=remove");
    reveal_strlit("change");
    reveal_strlit("add");
    reveal_strlit("remove");
    assert("SUBSYSTEM="@ =~= "SUBSYSTEM"@ + seq!['=']);
    assert("ACTION="@ =~= "ACTION"@ + seq!['=']);
    assert("SUBSYSTEM=drm"@ =~= "SUBSYSTEM="@ + "drm"@);
    assert("ACTION=change"@ =~= "ACTION="@ + "change"@);
    assert("ACTION=add"@ =~= "ACTION="@ + "add"@);
    assert("ACTION=remove"@ =~= "ACTION="@ + "remove"@);
    assert forall|i: int| 0 <= i < "SUBSYSTEM"@.len() implies 'A' <= #[trigger] "SUBSYSTEM"@[i]
        <= 'Z' by {
        assert(i == 0 || i == 1 || i == 2 || i == 3 || i == 4 || i == 5 || i == 6 || i == 7 || i
            == 8);
    }
    assert forall|i: int| 0 <= i < "ACTION"@.len() implies 'A' <= #[trigger] "ACTION"@[i] <= 'Z' by {
        assert(i == 0 || i == 1 || i == 2 || i == 3 || i == 4 || i == 5);
    }
}

/// An entry that begins with `prefix` says `value` exactly when it is the two in a row.
proof fn lemma_entry_is_prefix_and_value(entry: Seq<u8>, prefix: Seq<u8>, value: Seq<u8>)
    requires
        prefix.is_prefix_of(entry),
    ensures
        entry.skip(prefix.len() as int) == value <==> entry == prefix + value,
{
    assert(entry =~= prefix + entry.skip(prefix.len() as int));
    if entry == prefix + value {
        assert(entry.skip(prefix.len() as int) =~= value);
    }
}

/// The last `SUBSYSTEM` entry and the last `ACTION` entry decide, and nothing else
/// does: a datagram is a display change exactly when they are `SUBSYSTEM=drm` and
/// `ACTION=change`, `ACTION=add` or `ACTION=remove`, whatever the other entries say
/// and wherever they stand.
pub proof fn law_only_subsystem_and_action_decide(entries: Seq<Seq<u8>>)
    requires
        nul_free(entries),
    ensures
        is_display_change(joined(entries)) <==> {
            &&& exists|a: int|
                #[trigger] is_last_with(entries, vstd::utf8::encode_utf8("SUBSYSTEM="@), a)
                    && entries[a] == vstd::utf8::encode_utf8("SUBSYSTEM=drm"@)
            &&& exists|b: int|
                #[trigger] is_last_with(entries, vstd::utf8::encode_utf8("ACTION="@), b) && (
                entries[b] == vstd::utf8::encode_utf8("ACTION=change"@) || entries[b]
                    == vstd::utf8::encode_utf8("ACTION=add"@) || entries[b]
                    == vstd::utf8::encode_utf8("ACTION=remove"@))
        },
{
    let subsystem = vstd::utf8::encode_utf8("SUBSYSTEM"@);
    let action = vstd::utf8::encode_utf8("ACTION"@);
    let sub = vstd::utf8::encode_utf8("SUBSYSTEM="@);
    let act = vstd::utf8::encode_utf8("ACTION="@);
    lemma_uevent_keys();
    lemma_key_bytes("SUBSYSTEM"@);
    lemma_key_bytes("ACTION"@);
    lemma_encoding_joins("SUBSYSTEM="@, "drm"@);
    lemma_encoding_joins("ACTION="@, "change"@);
    lemma_encoding_joins("ACTION="@, "add"@);
    lemma_encoding_joins("ACTION="@, "remove"@);
    law_datagram_reads_back(entries, subsystem);
    law_datagram_reads_back(entries, action);
    assert forall|a: int| #[trigger] is_last_with(entries, sub, a) implies (field(
        joined(entries),
        subsystem,
    ) == Some(vstd::utf8::encode_utf8("drm"@)) <==> entries[a] == vstd::utf8::encode_utf8(
        "SUBSYSTEM=drm"@,
    )) by {
        lemma_last_value_by_prefix(entries, subsystem, a);
        lemma_entry_is_prefix_and_value(entries[a], sub, vstd::utf8::encode_utf8("drm"@));
    }
    assert forall|b: int| #[trigger] is_last_with(entries, act, b) implies {
        &&& field(joined(entries), action) is Some
        &&& changes_displays(field(joined(entries), action)->0) <==> (entries[b]
            == vstd::utf8::encode_utf8("ACTION=change"@) || entries[b] == vstd::utf8::encode_utf8(
            "ACTION=add"@,
        ) || entries[b] == vstd::utf8::encode_utf8("ACTION=remove"@))
    } by {
        lemma_last_value_by_prefix(entries, action, b);
        lemma_entry_is_prefix_and_value(entries[b], act, vstd::utf8::encode_utf8("change"@));
        lemma_entry_is_prefix_and_value(entries[b], act, vstd::utf8::encode_utf8("add"@));
        lemma_entry_is_prefix_and_value(entries[b], act, vstd::utf8::encode_utf8("remove"@));
    }
    lemma_last_value_by_prefix(entries, subsystem, 0);
    lemma_last_value_by_prefix(entries, action, 0);
}

/// Two datagrams whose last `SUBSYSTEM` entries agree and whose last `ACTION`
/// entries agree are classified alike.
pub proof fn law_agreeing_datagrams_are_classified_alike(
    one: Seq<Seq<u8>>,
    other: Seq<Seq<u8>>,
    a: int,
    b: int,
    c: int,
    d: int,
)
    requires
        nul_free(one),
        nul_free(other),
        is_last_with(one, vstd::utf8::encode_utf8("SUBSYSTEM="@), a),
        is_last_with(one, vstd::utf8::encode_utf8("ACTION="@), b),
        is_last_with(other, vstd::utf8::encode_utf8("SUBSYSTEM="@), c),
        is_last_with(other, vstd::utf8::encode_utf8("ACTION="@), d),
        one[a] == other[c],
        one[b] == other[d],
    ensures
        is_display_change(joined(one)) == is_display_change(joined(other)),
{
    law_only_subsystem_and_action_decide(one);
    law_only_subsystem_and_action_decide(other);
    lemma_last_is_unique(one, vstd::utf8::encode_utf8("SUBSYSTEM="@), a);
    lemma_last_is_unique(one, vstd::utf8::encode_utf8("ACTION="@), b);
    lemma_last_is_unique(other, vstd::utf8::encode_utf8("SUBSYSTEM="@), c);
    lemma_last_is_unique(other, vstd::utf8::encode_utf8("ACTION="@), d);
}

proof fn lemma_last_is_unique(entries: Seq<Seq<u8>>, prefix: Seq<u8>, at: int)
    requires
        is_last_with(entries, prefix, at),
    ensures
        forall|a: int| #[trigger] is_last_with(entries, prefix, a) ==> a == at,
{
    assert forall|a: int| #[trigger] is_last_with(entries, prefix, a) implies a == at by {
        if a < at {
            assert(vstd::utf8::valid_utf8(entries[at]));
        }
        if at < a {
            assert(vstd::utf8::valid_utf8(entries[a]));
        }
    }
}

} // verus!
