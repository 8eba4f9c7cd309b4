//! Unix paths as bytes: joining, and telling an absolute one.

use vstd::prelude::*;

verus! {

/// The path separator.
pub const SEPARATOR: u8 = 0x2f;

/// Whether a path is absolute.
pub open spec fn is_absolute(path: Seq<u8>) -> bool {
    path.len() > 0 && path[0] == SEPARATOR
}

/// `base` followed by the relative path `rel`: one separator between them, none
/// where `base` is empty or already ends in one.
pub open spec fn joined<T>(base: Seq<T>, separator: T, rel: Seq<T>) -> Seq<T> {
    if base.len() == 0 || base.last() == separator {
        base + rel
    } else {
        base.push(separator) + rel
    }
}

/// Whether a path is absolute.
pub fn absolute(path: &[u8]) -> (yes: bool)
    ensures
        yes == is_absolute(path@),
{
    path.len() > 0 && path[0] == SEPARATOR
}

/// Append bytes to a vector.
pub fn push_bytes(out: &mut Vec<u8>, bytes: &[u8])
    ensures
        final(out)@ == old(out)@ + bytes@,
{
    let mut i: usize = 0;
    while i < bytes.len()
        invariant
            i <= bytes.len(),
            out@ == old(out)@ + bytes@.take(i as int),
        decreases bytes.len() - i,
    {
        out.push(bytes[i]);
        assert(bytes@.take(i + 1) == bytes@.take(i as int).push(bytes@[i as int]));
        i += 1;
    }
    assert(bytes@.take(bytes@.len() as int) == bytes@);
}

/// A copy of a path.
pub fn copy_bytes(bytes: &[u8]) -> (copy: Vec<u8>)
    ensures
        copy@ == bytes@,
{
    let mut copy: Vec<u8> = Vec::new();
    push_bytes(&mut copy, bytes);
    assert(Seq::<u8>::empty() + bytes@ == bytes@);
    copy
}

/// Join a relative path onto a base.
pub fn join(base: &[u8], rel: &[u8]) -> (path: Vec<u8>)
    ensures
        path@ == joined(base@, SEPARATOR, rel@),
{
    let mut path: Vec<u8> = copy_bytes(base);
    if base.len() > 0 && base[base.len() - 1] != SEPARATOR {
        path.push(SEPARATOR);
    }
    push_bytes(&mut path, rel);
    path
}

/// A relative path is put behind its base with one separator between the two: none
/// is added behind a base that ends in one, and none before a path with no base.
pub proof fn law_one_separator_between_base_and_path(base: Seq<u8>, rel: Seq<u8>)
    ensures
        joined(Seq::empty(), 0x2fu8, rel) == rel,
        joined(base.push(0x2fu8), 0x2fu8, rel) == base + seq![0x2fu8] + rel,
        base.len() > 0 && base[base.len() - 1] != 0x2f ==> joined(base, 0x2fu8, rel) == base + seq![
            0x2fu8,
        ] + rel,
        SEPARATOR == 0x2f,
{
    assert(joined(Seq::empty(), 0x2fu8, rel) =~= rel);
    assert(joined(base.push(0x2fu8), 0x2fu8, rel) =~= base + seq![0x2fu8] + rel);
    assert(base.push(0x2fu8) + rel =~= base + seq![0x2fu8] + rel);
}

/// A path is absolute exactly when it begins with a slash.
pub proof fn law_absolute_paths_begin_with_a_slash(path: Seq<u8>)
    ensures
        is_absolute(path) <==> path.len() > 0 && path[0] == 0x2f,
{
}

} // verus!
