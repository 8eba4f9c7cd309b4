//! Whether a macOS copy of Duja is somewhere a login item can point at.
//!
//! A login item records an absolute path, and every removable volume and mounted
//! disk image appears under `/Volumes/`. One that points there stops working as
//! soon as the volume is ejected, while still reading as enabled.

use vstd::prelude::*;

use crate::text;

verus! {

/// Whether a path lies on a volume that can be unmounted.
pub open spec fn on_mounted_volume(exe: Seq<char>) -> bool {
    "/Volumes/"@.is_prefix_of(exe)
}

/// Whether `exe` sits on a volume that can be unmounted out from under a login
/// item. Decided by the path alone: a prefix, not a substring.
pub fn is_on_a_mounted_volume(exe: &str) -> (yes: bool)
    ensures
        yes == on_mounted_volume(exe@),
{
    text::starts_with(text::chars_of(exe).as_slice(), text::chars_of("/Volumes/").as_slice())
}

/// The text that refuses a login item for `exe`.
pub open spec fn refusal_text(exe: Seq<char>) -> Seq<char> {
    "Duja is running from a mounted volume ("@ + exe
        + "); a login item pointing there would stop working as soon as it is ejected. Move Duja.app to /Applications and enable it from there."@
}

/// What to tell the user when [`is_on_a_mounted_volume`] refuses: names the path
/// and the remedy.
pub fn mounted_volume_message(exe: &str) -> (message: String)
    ensures
        message@ == refusal_text(exe@),
{
    let mut message: String = "Duja is running from a mounted volume (".to_owned();
    message.append(exe);
    message.append(
        "); a login item pointing there would stop working as soon as it is ejected. Move Duja.app to /Applications and enable it from there.",
    );
    message
}

/// Everything below `/Volumes/` is on a volume that can be unmounted, whatever it is
/// called, and nothing else is; a refusal names the path and the remedy.
pub proof fn law_whatever_is_below_volumes_is_mounted(exe: Seq<char>, below: Seq<char>)
    ensures
        on_mounted_volume("/Volumes/"@ + below),
        refusal_text(exe) == "Duja is running from a mounted volume ("@ + exe
            + "); a login item pointing there would stop working as soon as it is ejected. Move Duja.app to /Applications and enable it from there."@,
        on_mounted_volume(exe) ==> exe == "/Volumes/"@ + exe.skip("/Volumes/"@.len() as int),
{
    let prefix = "/Volumes/"@;
    assert((prefix + below).take(prefix.len() as int) =~= prefix);
    if on_mounted_volume(exe) {
        assert(exe =~= prefix + exe.skip(prefix.len() as int));
    }
}

} // verus!
