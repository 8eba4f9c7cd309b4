//! Three small questions the tray asks the desktop environment, and one thing it
//! asks it to do.
//!
//! A backend makes the OS call and hands over its raw answer; the functions here
//! turn it into Duja's vocabulary. Failure is never fatal: an unopened URL is
//! `false`, an unknown theme is `None`, and an unanswerable motion query is
//! motion on.

use vstd::prelude::*;

use crate::text;

verus! {

/// `ShellExecuteW` returns a value greater than this on success.
pub const SHELL_EXECUTE_SUCCESS_FLOOR: usize = 32;

/// What came of handing a URL to the desktop.
#[derive(Debug, Clone, Copy, PartialEq, Eq, Structural)]
pub enum UrlHandoff {
    /// The value that the Windows shell returned.
    Shell(usize),
    /// What the macOS workspace answered, or nothing for a string that is no URL.
    Workspace(Option<bool>),
    /// This platform has no opener.
    NoOpener,
}

/// What the OS says of its theme.
#[derive(Debug)]
pub enum ThemeAnswer<'a> {
    /// Windows' `AppsUseLightTheme` value, if it could be read.
    AppsUseLightTheme(Option<u32>),
    /// macOS' `AppleInterfaceStyle` user default, if it is set.
    InterfaceStyle(Option<&'a str>),
    /// This platform has no query.
    NoQuery,
}

/// What the OS says of motion.
#[derive(Debug, Clone, Copy, PartialEq, Eq, Structural)]
pub enum MotionAnswer {
    /// Windows' client-area-animation flag, from a successful query.
    ClientAreaAnimation(Option<i32>),
    /// Whether macOS was asked to reduce motion.
    ReduceMotion(bool),
    /// This platform has no query.
    NoQuery,
}

/// Whether the OS accepted a URL that it was asked to open.
#[must_use]
pub fn open_url(handoff: UrlHandoff) -> (accepted: bool)
    ensures
        accepted == match handoff {
            UrlHandoff::Shell(code) => code > 32,
            UrlHandoff::Workspace(answer) => answer == Some(true),
            UrlHandoff::NoOpener => false,
        },
{
    match handoff {
        UrlHandoff::Shell(code) => code > SHELL_EXECUTE_SUCCESS_FLOOR,
        UrlHandoff::Workspace(Some(answer)) => answer,
        UrlHandoff::Workspace(None) => false,
        UrlHandoff::NoOpener => false,
    }
}

/// The word `Dark`, each letter small or capital.
pub open spec fn is_the_word_dark(s: Seq<char>) -> bool {
    &&& s.len() == 4
    &&& s[0] == 'd' || s[0] == 'D'
    &&& s[1] == 'a' || s[1] == 'A'
    &&& s[2] == 'r' || s[2] == 'R'
    &&& s[3] == 'k' || s[3] == 'K'
}

/// An interface style is dark exactly when it is the word `Dark`, in any case.
pub proof fn law_dark_in_any_case(s: Seq<char>)
    ensures
        text::same_ignoring_ascii_case(s, "Dark"@) <==> is_the_word_dark(s),
{
    reveal_strlit("Dark");
    let word = "Dark"@;
    assert(word.len() == 4 && word[0] == 'D' && word[1] == 'a' && word[2] == 'r' && word[3] == 'k');
    if s.len() == 4 {
        text::law_ascii_letters_match_in_either_case(s[0], 'd', 'D');
        text::law_ascii_letters_match_in_either_case(s[1], 'a', 'A');
        text::law_ascii_letters_match_in_either_case(s[2], 'r', 'R');
        text::law_ascii_letters_match_in_either_case(s[3], 'k', 'K');
        if is_the_word_dark(s) {
            assert forall|i: int| 0 <= i < s.len() implies text::ascii_folded(#[trigger] s[i])
                == text::ascii_folded(word[i]) by {
                assert(i == 0 || i == 1 || i == 2 || i == 3);
            }
        } else if text::same_ignoring_ascii_case(s, word) {
            assert(text::ascii_folded(s[0]) == text::ascii_folded(word[0]));
            assert(text::ascii_folded(s[1]) == text::ascii_folded(word[1]));
            assert(text::ascii_folded(s[2]) == text::ascii_folded(word[2]));
            assert(text::ascii_folded(s[3]) == text::ascii_folded(word[3]));
        }
    }
}

/// Whether macOS' interface style is the dark one.
pub open spec fn style_is_dark(style: Option<&str>) -> bool {
    match style {
        Some(s) => text::same_ignoring_ascii_case(s@, "Dark"@),
        None => false,
    }
}

/// Whether the OS is in dark mode; `None` when it has no answer.
#[must_use]
pub fn os_dark_theme(answer: ThemeAnswer<'_>) -> (dark: Option<bool>)
    ensures
        dark == match answer {
            ThemeAnswer::AppsUseLightTheme(Some(v)) => Some(v == 0),
            ThemeAnswer::AppsUseLightTheme(None) => None,
            ThemeAnswer::InterfaceStyle(style) => Some(style_is_dark(style)),
            ThemeAnswer::NoQuery => None,
        },
        answer matches ThemeAnswer::InterfaceStyle(style) ==> dark == Some(
            style matches Some(s) && is_the_word_dark(s@),
        ),
{
    match answer {
        ThemeAnswer::AppsUseLightTheme(value) => dark_from_apps_use_light_theme(value),
        ThemeAnswer::InterfaceStyle(style) => Some(dark_from_interface_style(style)),
        ThemeAnswer::NoQuery => None,
    }
}

/// Whether the OS wants UI animations: `false` only when the user asked for less
/// motion.
#[must_use]
pub fn animations_enabled(answer: MotionAnswer) -> (on: bool)
    ensures
        on == match answer {
            MotionAnswer::ClientAreaAnimation(Some(v)) => v != 0,
            MotionAnswer::ClientAreaAnimation(None) => true,
            MotionAnswer::ReduceMotion(reduce) => !reduce,
            MotionAnswer::NoQuery => true,
        },
{
    match answer {
        MotionAnswer::ClientAreaAnimation(queried) => animations_enabled_from(queried),
        MotionAnswer::ReduceMotion(reduce) => !reduce,
        MotionAnswer::NoQuery => true,
    }
}

/// Decode Windows' `AppsUseLightTheme` value: the name asks about light, so zero
/// is dark. A missing value is unknown.
pub fn dark_from_apps_use_light_theme(value: Option<u32>) -> (dark: Option<bool>)
    ensures
        dark == match value {
            Some(v) => Some(v == 0),
            None => None,
        },
{
    match value {
        Some(v) => Some(v == 0),
        None => None,
    }
}

/// Decode macOS' `AppleInterfaceStyle` user default: the key is absent in light
/// mode, and `Dark` in any case of its letters is dark.
pub fn dark_from_interface_style(style: Option<&str>) -> (dark: bool)
    ensures
        dark == style_is_dark(style),
        dark <==> (style matches Some(s) && is_the_word_dark(s@)),
{
    proof {
        if style is Some {
            law_dark_in_any_case(style->0@);
        }
    }
    match style {
        Some(s) => text::eq_ignore_ascii_case(
            text::chars_of(s).as_slice(),
            text::chars_of("Dark").as_slice(),
        ),
        None => false,
    }
}

/// Decode Windows' client-area-animation flag. A failed query is motion on.
pub fn animations_enabled_from(queried: Option<i32>) -> (on: bool)
    ensures
        on == match queried {
            Some(v) => v != 0,
            None => true,
        },
{
    match queried {
        Some(enabled) => enabled != 0,
        None => true,
    }
}

} // verus!
