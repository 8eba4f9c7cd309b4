//! The XDG autostart `.desktop` entry: composing it, and reading whether a
//! desktop has been told to ignore one.

use vstd::prelude::*;
use vstd::slice::slice_subrange;

use crate::text;

verus! {

// -- Quoting --------------------------------------------------------------

/// One character inside a quoted `Exec` argument. A percent sign introduces a
/// field code, so a literal one is doubled; four characters take a backslash.
pub open spec fn quoted_char(c: char) -> Seq<char> {
    if c == '%' {
        seq!['%', '%']
    } else if c == '\\' || c == '"' || c == '`' || c == '$' {
        seq!['\\', c]
    } else {
        seq![c]
    }
}

/// The characters of a quoted argument, between the quotes.
pub open spec fn quoted_chars(s: Seq<char>) -> Seq<char>
    decreases s.len(),
{
    if s.len() == 0 {
        Seq::empty()
    } else {
        quoted_char(s[0]) + quoted_chars(s.drop_first())
    }
}

/// `path` as a single `Exec` argument.
pub open spec fn quoted_argument(path: Seq<char>) -> Seq<char> {
    seq!['"'] + quoted_chars(path) + seq!['"']
}

/// One character of a key-file `string` value.
pub open spec fn key_file_char(c: char) -> Seq<char> {
    if c == '\\' {
        seq!['\\', '\\']
    } else if c == '\n' {
        seq!['\\', 'n']
    } else if c == '\t' {
        seq!['\\', 't']
    } else if c == '\r' {
        seq!['\\', 'r']
    } else {
        seq![c]
    }
}

/// A value in the key-file `string` format.
pub open spec fn key_file_escaped(s: Seq<char>) -> Seq<char>
    decreases s.len(),
{
    if s.len() == 0 {
        Seq::empty()
    } else {
        key_file_char(s[0]) + key_file_escaped(s.drop_first())
    }
}

/// A program path as the value of an `Exec` key: quoted as an argument, then
/// escaped as a key-file string.
pub open spec fn exec_value(path: Seq<char>) -> Seq<char> {
    key_file_escaped(quoted_argument(path))
}

/// Wrap `path` as a single `Exec` argument.
pub fn quote_argument(path: &[char]) -> (quoted: Vec<char>)
    ensures
        quoted@ == quoted_argument(path@),
{
    let mut out: Vec<char> = Vec::new();
    out.push('"');
    let mut i: usize = 0;
    assert(path@.skip(0) == path@);
    assert(out@ + quoted_chars(path@) =~= seq!['"'] + quoted_chars(path@));
    while i < path.len()
        invariant
            i <= path.len(),
            out@ + quoted_chars(path@.skip(i as int)) == seq!['"'] + quoted_chars(path@),
        decreases path.len() - i,
    {
        let c: char = path[i];
        let ghost before = out@;
        let ghost rest = path@.skip(i as int);
        assert(rest.drop_first() == path@.skip(i + 1));
        if c == '%' {
            out.push('%');
            out.push('%');
        } else if c == '\\' || c == '"' || c == '`' || c == '$' {
            out.push('\\');
            out.push(c);
        } else {
            out.push(c);
        }
        assert(out@ + quoted_chars(path@.skip(i + 1)) =~= before + (quoted_char(c) + quoted_chars(
            path@.skip(i + 1),
        )));
        i += 1;
    }
    assert(path@.skip(path@.len() as int) == Seq::<char>::empty());
    out.push('"');
    assert(out@ =~= quoted_argument(path@));
    out
}

/// Escape a value for the key-file `string` format, which is line-based: a raw
/// newline would cut the value short.
pub fn escape_key_file(value: &[char]) -> (escaped: Vec<char>)
    ensures
        escaped@ == key_file_escaped(value@),
{
    let mut out: Vec<char> = Vec::new();
    let mut i: usize = 0;
    assert(value@.skip(0) == value@);
    assert(out@ + key_file_escaped(value@) =~= key_file_escaped(value@));
    while i < value.len()
        invariant
            i <= value.len(),
            out@ + key_file_escaped(value@.skip(i as int)) == key_file_escaped(value@),
        decreases value.len() - i,
    {
        let c: char = value[i];
        let ghost before = out@;
        let ghost rest = value@.skip(i as int);
        assert(rest.drop_first() == value@.skip(i + 1));
        if c == '\\' {
            out.push('\\');
            out.push('\\');
        } else if c == '\n' {
            out.push('\\');
            out.push('n');
        } else if c == '\t' {
            out.push('\\');
            out.push('t');
        } else if c == '\r' {
            out.push('\\');
            out.push('r');
        } else {
            out.push(c);
        }
        assert(out@ + key_file_escaped(value@.skip(i + 1)) =~= before + (key_file_char(c)
            + key_file_escaped(value@.skip(i + 1))));
        i += 1;
    }
    assert(value@.skip(value@.len() as int) == Seq::<char>::empty());
    assert(out@ =~= key_file_escaped(value@));
    out
}

/// Quote a program path for an `Exec` value, through both levels, whether or not
/// it needs it.
pub fn quote_exec(path: &str) -> (value: String)
    ensures
        value@ == exec_value(path@),
{
    let argument: Vec<char> = quote_argument(text::chars_of(path).as_slice());
    text::string_of(escape_key_file(argument.as_slice()).as_slice())
}

// -- The entry ------------------------------------------------------------

/// The entry up to the value of `Exec`.
pub open spec fn entry_head() -> Seq<char> {
    "[Desktop Entry]\nType=Application\nName=Duja\nComment=Monitor brightness control\nExec="@
}

/// The entry after the value of `Exec`.
pub open spec fn entry_tail() -> Seq<char> {
    "\nTerminal=false\nCategories=Utility;\nX-GNOME-Autostart-enabled=true\n"@
}

/// The autostart entry for `exe`.
pub open spec fn entry_for(exe: Seq<char>) -> Seq<char> {
    entry_head() + exec_value(exe) + entry_tail()
}

/// Render the autostart entry for `exe`.
///
/// The GNOME key is redundant on a fresh install and written anyway: a session
/// manager sets it to `false` when a user disables the entry there, and
/// re-enabling has to undo that.
pub fn desktop_entry(exe: &str) -> (entry: String)
    ensures
        entry@ == entry_for(exe@),
        entry@
            == "[Desktop Entry]\nType=Application\nName=Duja\nComment=Monitor brightness control\nExec="@
            + exec_value(exe@)
            + "\nTerminal=false\nCategories=Utility;\nX-GNOME-Autostart-enabled=true\n"@,
{
    let mut entry: String =
        "[Desktop Entry]\nType=Application\nName=Duja\nComment=Monitor brightness control\nExec=".to_owned();
    entry.append(quote_exec(exe).as_str());
    entry.append("\nTerminal=false\nCategories=Utility;\nX-GNOME-Autostart-enabled=true\n");
    entry
}

// -- Reading one ----------------------------------------------------------

/// The first position at or after `from` where `c` stands in `s`, or the length.
pub open spec fn first_index(s: Seq<char>, c: char, from: int) -> int
    decreases s.len() - from,
{
    if from < 0 || from >= s.len() || s[from] == c {
        from
    } else {
        first_index(s, c, from + 1)
    }
}

/// Whether a line tells the desktop to ignore the entry: `Hidden=true`, or
/// `X-GNOME-Autostart-enabled=false`. White space around key and value, and the
/// case of the value, do not count.
pub open spec fn line_disables(line: Seq<char>) -> bool {
    let eq = first_index(line, '=', 0);
    let key = text::trimmed(line.take(eq));
    let value = text::trimmed(line.skip(eq + 1));
    &&& eq < line.len()
    &&& {
        ||| key == "Hidden"@ && text::same_ignoring_ascii_case(value, "true"@)
        ||| key == "X-GNOME-Autostart-enabled"@ && text::same_ignoring_ascii_case(value, "false"@)
    }
}

/// Whether none of the lines from `from` on disables the entry.
pub open spec fn enabled_from(s: Seq<char>, from: int) -> bool
    decreases s.len() - from,
{
    if from < 0 || from > s.len() {
        true
    } else {
        let end = first_index(s, '\n', from);
        proof {
            lemma_first_index(s, '\n', from);
        }
        !line_disables(s.subrange(from, end)) && (end >= s.len() || enabled_from(s, end + 1))
    }
}

/// Whether an entry's contents mean "launch me".
pub open spec fn entry_enabled(contents: Seq<char>) -> bool {
    enabled_from(contents, 0)
}

/// `first_index` finds the first one.
pub proof fn lemma_first_index(s: Seq<char>, c: char, from: int)
    requires
        0 <= from <= s.len(),
    ensures
        from <= first_index(s, c, from) <= s.len(),
        forall|i: int| from <= i < first_index(s, c, from) ==> s[i] != c,
        first_index(s, c, from) < s.len() ==> s[first_index(s, c, from)] == c,
    decreases s.len() - from,
{
    if from < s.len() && s[from] != c {
        lemma_first_index(s, c, from + 1);
    }
}

fn index_of(s: &[char], c: char, from: usize) -> (at: usize)
    requires
        from <= s@.len(),
    ensures
        at == first_index(s@, c, from as int),
        from <= at <= s@.len(),
{
    let mut i: usize = from;
    while i < s.len() && s[i] != c
        invariant
            from <= i <= s@.len(),
            first_index(s@, c, from as int) == first_index(s@, c, i as int),
        decreases s@.len() - i,
    {
        i += 1;
    }
    i
}

fn disables(line: &[char]) -> (yes: bool)
    ensures
        yes == line_disables(line@),
{
    let eq: usize = index_of(line, '=', 0);
    if eq >= line.len() {
        return false;
    }
    let key: &[char] = text::trim(slice_subrange(line, 0, eq));
    let value: &[char] = text::trim(slice_subrange(line, eq + 1, line.len()));
    assert(line@.subrange(0, eq as int) =~= line@.take(eq as int));
    assert(line@.subrange(eq + 1, line@.len() as int) =~= line@.skip(eq + 1));
    if text::same_chars(key, text::chars_of("Hidden").as_slice()) && text::eq_ignore_ascii_case(
        value,
        text::chars_of("true").as_slice(),
    ) {
        return true;
    }
    text::same_chars(key, text::chars_of("X-GNOME-Autostart-enabled").as_slice())
        && text::eq_ignore_ascii_case(value, text::chars_of("false").as_slice())
}

/// Whether a `.desktop` entry's contents mean "launch me".
///
/// Reads for a disabling value instead of requiring an enabling one: an entry
/// with neither key is enabled.
pub fn is_entry_enabled(contents: &str) -> (enabled: bool)
    ensures
        enabled == entry_enabled(contents@),
{
    let chars: Vec<char> = text::chars_of(contents);
    let s: &[char] = chars.as_slice();
    let mut from: usize = 0;
    loop
        invariant
            from <= s@.len(),
            s@ == contents@,
            entry_enabled(contents@) == enabled_from(s@, from as int),
        decreases s@.len() - from,
    {
        let end: usize = index_of(s, '\n', from);
        if disables(slice_subrange(s, from, end)) {
            return false;
        }
        if end >= s.len() {
            return true;
        }
        from = end + 1;
    }
}

// -- What the entry promises ----------------------------------------------

/// Whether `i .. j` is a whole line of `s`.
pub open spec fn is_line(s: Seq<char>, i: int, j: int) -> bool {
    &&& 0 <= i <= j <= s.len()
    &&& i == 0 || s[i - 1] == '\n'
    &&& j == s.len() || s[j] == '\n'
    &&& forall|k: int| i <= k < j ==> s[k] != '\n'
}

proof fn lemma_enabled_lines(s: Seq<char>, from: int)
    requires
        0 <= from <= s.len(),
        from == 0 || s[from - 1] == '\n',
    ensures
        enabled_from(s, from) <==> (forall|i: int, j: int|
            from <= i && #[trigger] is_line(s, i, j) ==> !line_disables(s.subrange(i, j))),
    decreases s.len() - from,
{
    let end = first_index(s, '\n', from);
    lemma_first_index(s, '\n', from);
    assert(is_line(s, from, end));
    if end < s.len() {
        lemma_enabled_lines(s, end + 1);
    }
    assert forall|i: int, j: int| from <= i && #[trigger] is_line(s, i, j) implies (i == from && j
        == end) || (end < s.len() && end + 1 <= i) by {
        if i == from {
            if j < end {
                assert(s[j] == '\n');
            }
            if j > end {
                assert(s[end] != '\n');
            }
        } else {
            assert(s[i - 1] == '\n');
            assert(i - 1 >= end);
        }
    }
}

/// An entry is enabled exactly when none of its lines disables it.
pub proof fn law_enabled_unless_a_line_disables(s: Seq<char>)
    ensures
        entry_enabled(s) <==> (forall|i: int, j: int| #[trigger]
            is_line(s, i, j) ==> !line_disables(s.subrange(i, j))),
{
    lemma_enabled_lines(s, 0);
}

/// What a key-file reader makes of a value: a backslash and the next character
/// stand for one character.
pub open spec fn key_file_unescaped(s: Seq<char>) -> Seq<char>
    decreases s.len(),
{
    if s.len() == 0 {
        Seq::empty()
    } else if s[0] == '\\' && s.len() > 1 {
        let c = if s[1] == 'n' {
            '\n'
        } else if s[1] == 't' {
            '\t'
        } else if s[1] == 'r' {
            '\r'
        } else if s[1] == 's' {
            ' '
        } else {
            s[1]
        };
        seq![c] + key_file_unescaped(s.skip(2))
    } else {
        seq![s[0]] + key_file_unescaped(s.drop_first())
    }
}

/// What a launcher makes of the inside of a quoted argument: a backslash stands
/// for the next character, two percent signs for one. `None` where a quote ends
/// the argument early, a backslash is left hanging or a field code is met.
pub open spec fn unquoted_chars(s: Seq<char>) -> Option<Seq<char>>
    decreases s.len(),
{
    if s.len() == 0 {
        Some(Seq::empty())
    } else if s[0] == '"' {
        None
    } else if s[0] == '\\' {
        if s.len() < 2 {
            None
        } else {
            match unquoted_chars(s.skip(2)) {
                Some(rest) => Some(seq![s[1]] + rest),
                None => None,
            }
        }
    } else if s[0] == '%' {
        if s.len() < 2 || s[1] != '%' {
            None
        } else {
            match unquoted_chars(s.skip(2)) {
                Some(rest) => Some(seq!['%'] + rest),
                None => None,
            }
        }
    } else {
        match unquoted_chars(s.drop_first()) {
            Some(rest) => Some(seq![s[0]] + rest),
            None => None,
        }
    }
}

/// What a launcher makes of a whole command line that is one quoted argument.
pub open spec fn unquoted_argument(s: Seq<char>) -> Option<Seq<char>> {
    if s.len() >= 2 && s.first() == '"' && s.last() == '"' {
        unquoted_chars(s.subrange(1, s.len() - 1))
    } else {
        None
    }
}

proof fn lemma_key_file_round_trip(s: Seq<char>)
    ensures
        key_file_unescaped(key_file_escaped(s)) == s,
    decreases s.len(),
{
    if s.len() > 0 {
        lemma_key_file_round_trip(s.drop_first());
        let rest = key_file_escaped(s.drop_first());
        let e = key_file_escaped(s);
        if key_file_char(s[0]).len() == 2 {
            assert(e.skip(2) =~= rest);
        } else {
            assert(e.drop_first() =~= rest);
        }
        assert(seq![s[0]] + s.drop_first() =~= s);
    }
}

proof fn lemma_quoted_round_trip(s: Seq<char>)
    ensures
        unquoted_chars(quoted_chars(s)) == Some(s),
    decreases s.len(),
{
    if s.len() > 0 {
        lemma_quoted_round_trip(s.drop_first());
        let rest = quoted_chars(s.drop_first());
        let q = quoted_chars(s);
        if quoted_char(s[0]).len() == 2 {
            assert(q.skip(2) =~= rest);
        } else {
            assert(q.drop_first() =~= rest);
        }
        assert(seq![s[0]] + s.drop_first() =~= s);
    }
}

/// A launcher that undoes the two levels of quoting gets the path back as one
/// argument, whatever characters it holds.
pub proof fn law_path_survives_both_levels(path: Seq<char>)
    ensures
        unquoted_argument(key_file_unescaped(exec_value(path))) == Some(path),
{
    let q = quoted_argument(path);
    lemma_key_file_round_trip(q);
    lemma_quoted_round_trip(path);
    assert(q.subrange(1, q.len() - 1) =~= quoted_chars(path));
}

proof fn lemma_escaped_is_one_line(s: Seq<char>)
    ensures
        forall|i: int|
            0 <= i < key_file_escaped(s).len() ==> #[trigger] key_file_escaped(s)[i] != '\n'
                && key_file_escaped(s)[i] != '\t' && key_file_escaped(s)[i] != '\r',
    decreases s.len(),
{
    if s.len() > 0 {
        lemma_escaped_is_one_line(s.drop_first());
        let front = key_file_char(s[0]);
        let rest = key_file_escaped(s.drop_first());
        let e = key_file_escaped(s);
        assert forall|i: int| 0 <= i < e.len() implies #[trigger] e[i] != '\n' && e[i] != '\t'
            && e[i] != '\r' by {
            if i < front.len() {
                assert(e[i] == front[i]);
            } else {
                assert(e[i] == rest[i - front.len()]);
            }
        }
    }
}

/// The value of `Exec` never holds a raw newline, tab or carriage return, so it
/// cannot be cut short or spill into another line.
pub proof fn law_exec_value_is_one_line(path: Seq<char>)
    ensures
        forall|i: int|
            0 <= i < exec_value(path).len() ==> #[trigger] exec_value(path)[i] != '\n'
                && exec_value(path)[i] != '\t' && exec_value(path)[i] != '\r',
{
    lemma_escaped_is_one_line(quoted_argument(path));
}

/// Whether every line of `s` that begins after a break from `at` on begins with
/// a character no disabling key begins with, save one that begins at `except`.
spec fn starts_plain(s: Seq<char>, except: int, at: int) -> bool
    decreases s.len() - at,
{
    if at < 0 || at >= s.len() {
        true
    } else {
        &&& s[at] == '\n' && at + 1 < s.len() && at + 1 != except ==> plain_start(s[at + 1])
        &&& starts_plain(s, except, at + 1)
    }
}

/// Whether a line that begins with `c` has another key than the disabling ones.
spec fn plain_start(c: char) -> bool {
    c != 'H' && c != 'X' && c != '=' && !text::is_white_space(c)
}

proof fn lemma_starts_plain(s: Seq<char>, except: int, at: int, i: int)
    requires
        starts_plain(s, except, at),
        0 <= at <= i,
        i + 1 < s.len(),
        s[i] == '\n',
        i + 1 != except,
    ensures
        plain_start(s[i + 1]),
    decreases i - at,
{
    if at < i {
        lemma_starts_plain(s, except, at + 1, i);
    }
}

proof fn lemma_trimmed_keeps_first(s: Seq<char>)
    requires
        s.len() > 0,
        !text::is_white_space(s[0]),
    ensures
        text::trimmed(s).len() > 0,
        text::trimmed(s)[0] == s[0],
    decreases s.len(),
{
    if text::is_white_space(s.last()) {
        assert(s.len() > 1);
        lemma_trimmed_keeps_first(s.drop_last());
    }
}

proof fn lemma_plain_line_does_not_disable(line: Seq<char>)
    requires
        line.len() > 0 ==> plain_start(line[0]),
    ensures
        !line_disables(line),
{
    if line.len() > 0 {
        let eq = first_index(line, '=', 0);
        lemma_first_index(line, '=', 0);
        reveal_strlit("Hidden");
        reveal_strlit("X-GNOME-Autostart-enabled");
        lemma_trimmed_keeps_first(line.take(eq));
    }
}

proof fn lemma_literal_lines()
    ensures
        starts_plain("[Desktop Entry]\nType=Application\nName=Duja\nComment=Monitor brightness control\nExec="@, -1, 0),
        starts_plain("\nTerminal=false\nCategories=Utility;\nX-GNOME-Autostart-enabled=true\n"@, 36, 0),
{
    reveal_strlit("[Desktop Entry]\nType=Application\nName=Duja\nComment=Monitor brightness control\nExec=");
    reveal_strlit("\nTerminal=false\nCategories=Utility;\nX-GNOME-Autostart-enabled=true\n");
    reveal_with_fuel(starts_plain, 32);
    assert(starts_plain("[Desktop Entry]\nType=Application\nName=Duja\nComment=Monitor brightness control\nExec="@, -1, 60));
    assert(starts_plain("[Desktop Entry]\nType=Application\nName=Duja\nComment=Monitor brightness control\nExec="@, -1, 30));
    assert(starts_plain("\nTerminal=false\nCategories=Utility;\nX-GNOME-Autostart-enabled=true\n"@, 36, 60));
    assert(starts_plain("\nTerminal=false\nCategories=Utility;\nX-GNOME-Autostart-enabled=true\n"@, 36, 30));
}

proof fn lemma_gnome_line_does_not_disable()
    ensures
        !line_disables("X-GNOME-Autostart-enabled=true"@),
{
    let line = "X-GNOME-Autostart-enabled=true"@;
    reveal_strlit("X-GNOME-Autostart-enabled=true");
    reveal_strlit("X-GNOME-Autostart-enabled");
    reveal_strlit("Hidden");
    reveal_strlit("false");
    let key = line.take(25);
    let value = line.skip(26);
    reveal_with_fuel(first_index, 27);
    assert(first_index(line, '=', 0) == 25);
    assert(text::trimmed(value) == value);
    lemma_trimmed_keeps_first(key);
}

/// A freshly written entry reads as enabled, whatever the path.
pub proof fn law_written_entry_is_enabled(exe: Seq<char>)
    ensures
        entry_enabled(entry_for(exe)),
{
    let head = entry_head();
    let value = exec_value(exe);
    let tail = entry_tail();
    let s = entry_for(exe);
    let n = head.len() as int;
    let m = n + value.len();
    lemma_literal_lines();
    law_exec_value_is_one_line(exe);
    law_enabled_unless_a_line_disables(s);
    lemma_gnome_line_does_not_disable();
    reveal_strlit("[Desktop Entry]\nType=Application\nName=Duja\nComment=Monitor brightness control\nExec=");
    reveal_strlit("\nTerminal=false\nCategories=Utility;\nX-GNOME-Autostart-enabled=true\n");
    assert forall|i: int| 0 <= i < n implies s[i] == head[i] by {}
    assert forall|i: int| n <= i < m implies s[i] == value[i - n] by {}
    assert forall|i: int| m <= i < s.len() implies s[i] == tail[i - m] by {}
    assert forall|i: int, j: int| #[trigger] is_line(s, i, j) implies !line_disables(
        s.subrange(i, j),
    ) by {
        let line = s.subrange(i, j);
        if i < j {
            assert(line[0] == s[i]);
            if i == m + 36 {
                reveal_strlit("X-GNOME-Autostart-enabled=true");
                let end = m + 66;
                assert(s[end] == '\n');
                assert(j <= end);
                if j < end {
                    assert(s[j] == '\n');
                    assert(tail[j - m] == '\n');
                    lemma_gnome_line_has_no_break(j - m);
                }
                assert(line =~= "X-GNOME-Autostart-enabled=true"@);
            } else if i == 0 {
                lemma_plain_line_does_not_disable(line);
            } else if i < n {
                assert(head[i - 1] == '\n');
                lemma_starts_plain(head, -1, 0, i - 1);
                lemma_plain_line_does_not_disable(line);
            } else if i <= m {
                // The line before would have to end inside the value.
                assert(i - 1 < n ==> head[i - 1] == '=');
                assert(i - 1 >= n ==> value[i - 1 - n] != '\n');
                assert(false);
            } else {
                assert(tail[i - 1 - m] == '\n');
                lemma_starts_plain(tail, 36, 0, i - 1 - m);
                lemma_plain_line_does_not_disable(line);
            }
        } else {
            lemma_plain_line_does_not_disable(line);
        }
    }
}

proof fn lemma_gnome_line_has_no_break(k: int)
    requires
        36 <= k < 66,
    ensures
        entry_tail()[k] != '\n',
{
    reveal_strlit("\nTerminal=false\nCategories=Utility;\nX-GNOME-Autostart-enabled=true\n");
    reveal_with_fuel(first_index, 35);
    assert(first_index(entry_tail(), '\n', 36) == 66);
    lemma_first_index(entry_tail(), '\n', 36);
}

// -- Reading an entry line by line ------------------------------------------

/// The lines of a key file: what stands between its line breaks.
pub open spec fn lines(s: Seq<char>) -> Seq<Seq<char>> {
    text::pieces(s, '\n')
}

/// Whether a text stays within one line.
pub open spec fn is_one_line(s: Seq<char>) -> bool {
    text::lacks(s, '\n')
}

proof fn lemma_first_line(line: Seq<char>, rest: Seq<char>)
    requires
        is_one_line(line),
    ensures
        lines(line + seq!['\n'] + rest) == seq![line] + lines(rest),
{
    text::lemma_first_piece(line, rest, '\n');
}

proof fn lemma_literal_is_one_line(s: Seq<char>)
    requires
        first_index(s, '\n', 0) == s.len(),
    ensures
        is_one_line(s),
{
    lemma_first_index(s, '\n', 0);
}

proof fn lemma_head_in_lines()
    ensures
        entry_head() == "[Desktop Entry]"@ + seq!['\n'] + ("Type=Application"@ + seq!['\n'] + (
        "Name=Duja"@ + seq!['\n'] + ("Comment=Monitor brightness control"@ + seq!['\n']
            + "Exec="@))),
        is_one_line("[Desktop Entry]"@),
        is_one_line("Type=Application"@),
        is_one_line("Name=Duja"@),
        is_one_line("Comment=Monitor brightness control"@),
        is_one_line("Exec="@),
{
    reveal_strlit("[Desktop Entry]\nType=Application\nName=Duja\nComment=Monitor brightness control\nExec=");
    reveal_strlit("[Desktop Entry]");
    reveal_strlit("Type=Application");
    reveal_strlit("Name=Duja");
    reveal_strlit("Comment=Monitor brightness control");
    reveal_strlit("Exec=");
    reveal_with_fuel(first_index, 36);
    lemma_literal_is_one_line("[Desktop Entry]"@);
    lemma_literal_is_one_line("Type=Application"@);
    lemma_literal_is_one_line("Name=Duja"@);
    lemma_literal_is_one_line("Comment=Monitor brightness control"@);
    lemma_literal_is_one_line("Exec="@);
    assert(entry_head() =~= "[Desktop Entry]"@ + seq!['\n'] + ("Type=Application"@ + seq!['\n'] + (
    "Name=Duja"@ + seq!['\n'] + ("Comment=Monitor brightness control"@ + seq!['\n'] + "Exec="@))));
}

proof fn lemma_tail_in_lines()
    ensures
        entry_tail() == seq!['\n'] + ("Terminal=false"@ + seq!['\n'] + ("Categories=Utility;"@
            + seq!['\n'] + ("X-GNOME-Autostart-enabled=true"@ + seq!['\n'] + Seq::empty()))),
        is_one_line("Terminal=false"@),
        is_one_line("Categories=Utility;"@),
        is_one_line("X-GNOME-Autostart-enabled=true"@),
{
    reveal_strlit("\nTerminal=false\nCategories=Utility;\nX-GNOME-Autostart-enabled=true\n");
    reveal_strlit("Terminal=false");
    reveal_strlit("Categories=Utility;");
    reveal_strlit("X-GNOME-Autostart-enabled=true");
    reveal_with_fuel(first_index, 36);
    lemma_literal_is_one_line("Terminal=false"@);
    lemma_literal_is_one_line("Categories=Utility;"@);
    lemma_literal_is_one_line("X-GNOME-Autostart-enabled=true"@);
    assert(entry_tail() =~= seq!['\n'] + ("Terminal=false"@ + seq!['\n'] + ("Categories=Utility;"@
        + seq!['\n'] + ("X-GNOME-Autostart-enabled=true"@ + seq!['\n'] + Seq::empty()))));
}

/// Read line by line, a written entry is the group header and one line for each of
/// seven keys, and no other: nothing narrows which desktops start it, hides it or
/// makes the launch conditional. A launcher gets the executable back from `Exec`.
pub proof fn law_entry_has_exactly_these_lines(exe: Seq<char>)
    ensures
        ({
            let read = lines(entry_for(exe));
            &&& read.len() == 9
            &&& read[0] == "[Desktop Entry]"@
            &&& read[1] == "Type=Application"@
            &&& read[2] == "Name=Duja"@
            &&& read[3] == "Comment=Monitor brightness control"@
            &&& "Exec="@.is_prefix_of(read[4])
            &&& unquoted_argument(key_file_unescaped(read[4].skip("Exec="@.len() as int))) == Some(
                exe,
            )
            &&& read[5] == "Terminal=false"@
            &&& read[6] == "Categories=Utility;"@
            &&& read[7] == "X-GNOME-Autostart-enabled=true"@
            &&& read[8] == Seq::<char>::empty()
        }),
{
    let exec = "Exec="@ + exec_value(exe);
    let last = Seq::<char>::empty();
    let from5 = "Terminal=false"@ + seq!['\n'] + ("Categories=Utility;"@ + seq!['\n'] + (
    "X-GNOME-Autostart-enabled=true"@ + seq!['\n'] + last));
    let from4 = exec + seq!['\n'] + from5;
    let from3 = "Comment=Monitor brightness control"@ + seq!['\n'] + from4;
    let from2 = "Name=Duja"@ + seq!['\n'] + from3;
    let from1 = "Type=Application"@ + seq!['\n'] + from2;
    lemma_entry_in_lines(exe);
    lemma_head_in_lines();
    lemma_tail_in_lines();
    law_path_survives_both_levels(exe);
    lemma_exec_line(exe);
    let read = lines(entry_for(exe));
    lemma_first_line("[Desktop Entry]"@, from1);
    assert(read[0] == "[Desktop Entry]"@ && read.drop_first() =~= lines(from1));
    lemma_first_line("Type=Application"@, from2);
    let read1 = lines(from1);
    assert(read1[0] == "Type=Application"@ && read1.drop_first() =~= lines(from2));
    lemma_first_line("Name=Duja"@, from3);
    let read2 = lines(from2);
    assert(read2[0] == "Name=Duja"@ && read2.drop_first() =~= lines(from3));
    lemma_first_line("Comment=Monitor brightness control"@, from4);
    let read3 = lines(from3);
    assert(read3[0] == "Comment=Monitor brightness control"@ && read3.drop_first() =~= lines(
        from4,
    ));
    lemma_first_line(exec, from5);
    let read4 = lines(from4);
    assert(read4[0] == exec && read4.drop_first() =~= lines(from5));
    lemma_last_lines();
    let read5 = lines(from5);
    assert(read[1] == read1[0] && read[2] == read1[1] && read[3] == read1[2] && read[4]
        == read1[3]);
    assert(read1[1] == read2[0] && read1[2] == read2[1] && read1[3] == read2[2]);
    assert(read2[1] == read3[0] && read2[2] == read3[1] && read3[1] == read4[0]);
    assert(read.len() == 5 + read5.len());
    assert forall|k: int| 0 <= k < 4 implies read[k + 5] == #[trigger] read5[k] by {
        assert(read[k + 5] == read1[k + 4]);
        assert(read1[k + 4] == read2[k + 3]);
        assert(read2[k + 3] == read3[k + 2]);
        assert(read3[k + 2] == read4[k + 1]);
        assert(read4[k + 1] == read5[k]);
    }
    assert(read[5] == read5[0] && read[6] == read5[1] && read[7] == read5[2] && read[8]
        == read5[3]);
}

proof fn lemma_exec_line(exe: Seq<char>)
    ensures
        is_one_line("Exec="@ + exec_value(exe)),
        "Exec="@.is_prefix_of("Exec="@ + exec_value(exe)),
        ("Exec="@ + exec_value(exe)).skip("Exec="@.len() as int) == exec_value(exe),
{
    let exec = "Exec="@ + exec_value(exe);
    lemma_head_in_lines();
    law_exec_value_is_one_line(exe);
    assert forall|k: int| 0 <= k < exec.len() implies exec[k] != '\n' by {
        if k < "Exec="@.len() {
            assert(exec[k] == "Exec="@[k]);
        } else {
            assert(exec[k] == exec_value(exe)[k - "Exec="@.len()]);
        }
    }
    assert(exec.take("Exec="@.len() as int) =~= "Exec="@);
    assert(exec.skip("Exec="@.len() as int) =~= exec_value(exe));
}

proof fn lemma_last_lines()
    ensures
        ({
            let read = lines(
                "Terminal=false"@ + seq!['\n'] + ("Categories=Utility;"@ + seq!['\n'] + (
                "X-GNOME-Autostart-enabled=true"@ + seq!['\n'] + Seq::empty())),
            );
            &&& read.len() == 4
            &&& read[0] == "Terminal=false"@
            &&& read[1] == "Categories=Utility;"@
            &&& read[2] == "X-GNOME-Autostart-enabled=true"@
            &&& read[3] == Seq::<char>::empty()
        }),
{
    let last = Seq::<char>::empty();
    let from2 = "X-GNOME-Autostart-enabled=true"@ + seq!['\n'] + last;
    let from1 = "Categories=Utility;"@ + seq!['\n'] + from2;
    lemma_tail_in_lines();
    lemma_first_line("Terminal=false"@, from1);
    lemma_first_line("Categories=Utility;"@, from2);
    lemma_first_line("X-GNOME-Autostart-enabled=true"@, last);
    text::lemma_one_piece(last, '\n');
}

/// Two texts in a row and a third, in either grouping.
proof fn lemma_joins_associate(a: Seq<char>, b: Seq<char>, c: Seq<char>)
    ensures
        (a + b) + c == a + (b + c),
{
    assert((a + b) + c =~= a + (b + c));
}

proof fn lemma_entry_in_lines(exe: Seq<char>)
    ensures
        entry_for(exe) == "[Desktop Entry]"@ + seq!['\n'] + ("Type=Application"@ + seq!['\n'] + (
        "Name=Duja"@ + seq!['\n'] + ("Comment=Monitor brightness control"@ + seq!['\n'] + ((
        "Exec="@ + exec_value(exe)) + seq!['\n'] + ("Terminal=false"@ + seq!['\n'] + (
        "Categories=Utility;"@ + seq!['\n'] + ("X-GNOME-Autostart-enabled=true"@ + seq!['\n']
            + Seq::empty()))))))),
{
    let v = exec_value(exe);
    let t = "Terminal=false"@ + seq!['\n'] + ("Categories=Utility;"@ + seq!['\n'] + (
    "X-GNOME-Autostart-enabled=true"@ + seq!['\n'] + Seq::empty()));
    let l0 = "[Desktop Entry]"@ + seq!['\n'];
    let l1 = "Type=Application"@ + seq!['\n'];
    let l2 = "Name=Duja"@ + seq!['\n'];
    let l3 = "Comment=Monitor brightness control"@ + seq!['\n'];
    let e = "Exec="@;
    let end = v + (seq!['\n'] + t);
    lemma_head_in_lines();
    lemma_tail_in_lines();
    lemma_joins_associate(entry_head(), v, seq!['\n'] + t);
    lemma_joins_associate(l0, l1 + (l2 + (l3 + e)), end);
    lemma_joins_associate(l1, l2 + (l3 + e), end);
    lemma_joins_associate(l2, l3 + e, end);
    lemma_joins_associate(l3, e, end);
    lemma_joins_associate(e, v, seq!['\n'] + t);
    lemma_joins_associate(e + v, seq!['\n'], t);
}

proof fn lemma_quoted_chars_join(a: Seq<char>, b: Seq<char>)
    ensures
        quoted_chars(a + b) == quoted_chars(a) + quoted_chars(b),
    decreases a.len(),
{
    if a.len() == 0 {
        assert(a + b =~= b);
        assert(quoted_chars(a) + quoted_chars(b) =~= quoted_chars(b));
    } else {
        lemma_quoted_chars_join(a.drop_first(), b);
        assert((a + b).drop_first() =~= a.drop_first() + b);
        assert(quoted_chars(a + b) =~= quoted_chars(a) + quoted_chars(b));
    }
}

proof fn lemma_key_file_joins(a: Seq<char>, b: Seq<char>)
    ensures
        key_file_escaped(a + b) == key_file_escaped(a) + key_file_escaped(b),
    decreases a.len(),
{
    if a.len() == 0 {
        assert(a + b =~= b);
        assert(key_file_escaped(a) + key_file_escaped(b) =~= key_file_escaped(b));
    } else {
        lemma_key_file_joins(a.drop_first(), b);
        assert((a + b).drop_first() =~= a.drop_first() + b);
        assert(key_file_escaped(a + b) =~= key_file_escaped(a) + key_file_escaped(b));
    }
}

proof fn lemma_exec_value_in_parts(path: Seq<char>)
    ensures
        exec_value(path) == seq!['"'] + key_file_escaped(quoted_chars(path)) + seq!['"'],
{
    let quote = seq!['"'];
    lemma_key_file_joins(quote + quoted_chars(path), quote);
    lemma_key_file_joins(quote, quoted_chars(path));
    assert(quote.drop_first() =~= Seq::<char>::empty());
    assert(key_file_escaped(Seq::<char>::empty()) =~= Seq::<char>::empty());
    assert(key_file_escaped(quote) =~= quote);
}

/// Quoting goes character by character: two paths in a row are quoted as each
/// alone, inside one pair of quotes.
pub proof fn law_quoting_goes_character_by_character(a: Seq<char>, b: Seq<char>)
    ensures
        exec_value(a).len() >= 2,
        exec_value(b).len() >= 2,
        exec_value(a + b) == exec_value(a).drop_last() + exec_value(b).drop_first(),
        exec_value(Seq::empty()) == seq!['"', '"'],
{
    lemma_exec_value_in_parts(a);
    lemma_exec_value_in_parts(b);
    lemma_exec_value_in_parts(a + b);
    lemma_exec_value_in_parts(Seq::empty());
    lemma_quoted_chars_join(a, b);
    lemma_key_file_joins(quoted_chars(a), quoted_chars(b));
    assert(exec_value(a + b) =~= exec_value(a).drop_last() + exec_value(b).drop_first());
    assert(exec_value(Seq::empty()) =~= seq!['"', '"']);
}

/// What each character becomes between the quotes: the four that an argument
/// escapes take a backslash, which the key file doubles; a percent sign is doubled;
/// the three controls of a key file become their two-character escapes; and every
/// other character stands for itself.
pub proof fn law_each_character_is_quoted_so(c: char)
    ensures
        c == '\\' ==> exec_value(seq![c]) == seq!['"', '\\', '\\', '\\', '\\', '"'],
        c == '"' || c == '`' || c == '$' ==> exec_value(seq![c]) == seq!['"', '\\', '\\', c, '"'],
        c == '%' ==> exec_value(seq![c]) == seq!['"', '%', '%', '"'],
        c == '\n' ==> exec_value(seq![c]) == seq!['"', '\\', 'n', '"'],
        c == '\t' ==> exec_value(seq![c]) == seq!['"', '\\', 't', '"'],
        c == '\r' ==> exec_value(seq![c]) == seq!['"', '\\', 'r', '"'],
        c != '\\' && c != '"' && c != '`' && c != '$' && c != '%' && c != '\n' && c != '\t' && c
            != '\r' ==> exec_value(seq![c]) == seq!['"', c, '"'],
{
    let one = seq![c];
    lemma_exec_value_in_parts(one);
    assert(one.drop_first() =~= Seq::<char>::empty());
    assert(quoted_chars(Seq::<char>::empty()) =~= Seq::<char>::empty());
    assert(key_file_escaped(Seq::<char>::empty()) =~= Seq::<char>::empty());
    assert(quoted_chars(one) =~= quoted_char(c));
    let q = quoted_char(c);
    if q.len() == 1 {
        assert(q.drop_first() =~= Seq::<char>::empty());
        assert(key_file_escaped(q) =~= key_file_char(q[0]));
    } else {
        let second = seq![q[1]];
        assert(q.drop_first() =~= second);
        assert(second.drop_first() =~= Seq::<char>::empty());
        assert(key_file_escaped(second) =~= key_file_char(q[1]));
        assert(key_file_escaped(q) =~= key_file_char(q[0]) + key_file_char(q[1]));
    }
}

// -- Which lines disable an entry -------------------------------------------

/// The word `true`, each letter small or capital.
pub open spec fn is_the_word_true(v: Seq<char>) -> bool {
    &&& v.len() == 4
    &&& v[0] == 't' || v[0] == 'T'
    &&& v[1] == 'r' || v[1] == 'R'
    &&& v[2] == 'u' || v[2] == 'U'
    &&& v[3] == 'e' || v[3] == 'E'
}

/// The word `false`, each letter small or capital.
pub open spec fn is_the_word_false(v: Seq<char>) -> bool {
    &&& v.len() == 5
    &&& v[0] == 'f' || v[0] == 'F'
    &&& v[1] == 'a' || v[1] == 'A'
    &&& v[2] == 'l' || v[2] == 'L'
    &&& v[3] == 's' || v[3] == 'S'
    &&& v[4] == 'e' || v[4] == 'E'
}

proof fn lemma_true_and_false_in_any_case(v: Seq<char>)
    ensures
        text::same_ignoring_ascii_case(v, "true"@) <==> is_the_word_true(v),
        text::same_ignoring_ascii_case(v, "false"@) <==> is_the_word_false(v),
{
    reveal_strlit("true");
    reveal_strlit("false");
    let yes = "true"@;
    let no = "false"@;
    assert(yes.len() == 4 && yes[0] == 't' && yes[1] == 'r' && yes[2] == 'u' && yes[3] == 'e');
    assert(no.len() == 5 && no[0] == 'f' && no[1] == 'a' && no[2] == 'l' && no[3] == 's' && no[4]
        == 'e');
    if v.len() == 4 {
        text::law_ascii_letters_match_in_either_case(v[0], 't', 'T');
        text::law_ascii_letters_match_in_either_case(v[1], 'r', 'R');
        text::law_ascii_letters_match_in_either_case(v[2], 'u', 'U');
        text::law_ascii_letters_match_in_either_case(v[3], 'e', 'E');
        if is_the_word_true(v) {
            assert forall|i: int| 0 <= i < v.len() implies text::ascii_folded(#[trigger] v[i])
                == text::ascii_folded(yes[i]) by {
                assert(i == 0 || i == 1 || i == 2 || i == 3);
            }
        } else if text::same_ignoring_ascii_case(v, yes) {
            assert(text::ascii_folded(v[0]) == text::ascii_folded(yes[0]));
            assert(text::ascii_folded(v[1]) == text::ascii_folded(yes[1]));
            assert(text::ascii_folded(v[2]) == text::ascii_folded(yes[2]));
            assert(text::ascii_folded(v[3]) == text::ascii_folded(yes[3]));
        }
    }
    if v.len() == 5 {
        text::law_ascii_letters_match_in_either_case(v[0], 'f', 'F');
        text::law_ascii_letters_match_in_either_case(v[1], 'a', 'A');
        text::law_ascii_letters_match_in_either_case(v[2], 'l', 'L');
        text::law_ascii_letters_match_in_either_case(v[3], 's', 'S');
        text::law_ascii_letters_match_in_either_case(v[4], 'e', 'E');
        if is_the_word_false(v) {
            assert forall|i: int| 0 <= i < v.len() implies text::ascii_folded(#[trigger] v[i])
                == text::ascii_folded(no[i]) by {
                assert(i == 0 || i == 1 || i == 2 || i == 3 || i == 4);
            }
        } else if text::same_ignoring_ascii_case(v, no) {
            assert(text::ascii_folded(v[0]) == text::ascii_folded(no[0]));
            assert(text::ascii_folded(v[1]) == text::ascii_folded(no[1]));
            assert(text::ascii_folded(v[2]) == text::ascii_folded(no[2]));
            assert(text::ascii_folded(v[3]) == text::ascii_folded(no[3]));
            assert(text::ascii_folded(v[4]) == text::ascii_folded(no[4]));
        }
    }
}

proof fn lemma_disabling_keys()
    ensures
        "Hidden"@.len() == 6,
        "Hidden"@.first() == 'H',
        "Hidden"@.last() == 'n',
        "X-GNOME-Autostart-enabled"@.len() == 25,
        "X-GNOME-Autostart-enabled"@.first() == 'X',
        "X-GNOME-Autostart-enabled"@.last() == 'd',
        forall|i: int| 0 <= i < "Hidden"@.len() ==> "Hidden"@[i] != '=',
        forall|i: int|
            0 <= i < "X-GNOME-Autostart-enabled"@.len() ==> "X-GNOME-Autostart-enabled"@[i] != '=',
{
    reveal_strlit("Hidden");
    reveal_strlit("X-GNOME-Autostart-enabled");
    reveal_with_fuel(first_index, 27);
    lemma_first_index("Hidden"@, '=', 0);
    lemma_first_index("X-GNOME-Autostart-enabled"@, '=', 0);
}

/// A line that sets `Hidden` to true, or the GNOME key to false, disables the entry,
/// with any white space round key and value and the value in any case. The same
/// line with another value does not.
pub proof fn law_disabling_lines_disable(
    a: Seq<char>,
    b: Seq<char>,
    c: Seq<char>,
    v: Seq<char>,
    d: Seq<char>,
)
    requires
        text::is_blank(a),
        text::is_blank(b),
        text::is_blank(c),
        text::is_blank(d),
        v.len() > 0 ==> !text::is_white_space(v.first()) && !text::is_white_space(v.last()),
    ensures
        line_disables((a + "Hidden"@ + b) + seq!['='] + (c + v + d)) <==> is_the_word_true(v),
        line_disables((a + "X-GNOME-Autostart-enabled"@ + b) + seq!['='] + (c + v + d))
            <==> is_the_word_false(v),
{
    lemma_disabling_keys();
    lemma_true_and_false_in_any_case(v);
    text::law_padding_is_trimmed_off(c, v, d);
    lemma_line_in_parts(a, "Hidden"@, b, c + v + d);
    lemma_line_in_parts(a, "X-GNOME-Autostart-enabled"@, b, c + v + d);
}

proof fn lemma_line_in_parts(a: Seq<char>, key: Seq<char>, b: Seq<char>, value: Seq<char>)
    requires
        text::is_blank(a),
        text::is_blank(b),
        key.len() > 0,
        !text::is_white_space(key.first()),
        !text::is_white_space(key.last()),
        forall|i: int| 0 <= i < key.len() ==> key[i] != '=',
    ensures
        ({
            let line = (a + key + b) + seq!['='] + value;
            let eq = first_index(line, '=', 0);
            &&& eq < line.len()
            &&& text::trimmed(line.take(eq)) == key
            &&& line.skip(eq + 1) == value
        }),
{
    let before = a + key + b;
    let line = before + seq!['='] + value;
    let eq = first_index(line, '=', 0);
    lemma_first_index(line, '=', 0);
    assert forall|i: int| 0 <= i < before.len() implies before[i] != '=' by {
        if i < a.len() {
            assert(before[i] == a[i]);
        } else if i < a.len() + key.len() {
            assert(before[i] == key[i - a.len()]);
        } else {
            assert(before[i] == b[i - a.len() - key.len()]);
        }
    }
    assert(line[before.len() as int] == '=');
    assert(eq == before.len()) by {
        if eq < before.len() {
            assert(line[eq] == before[eq]);
        }
    }
    assert(line.take(eq) =~= before);
    assert(line.skip(eq + 1) =~= value);
    text::law_padding_is_trimmed_off(a, key, b);
}

/// No other line disables an entry: one that does is a blank, a disabling key, a
/// blank, an equals sign, a blank, the key's disabling value and a blank.
pub proof fn law_only_disabling_lines_disable(line: Seq<char>) -> (parts: (
    Seq<char>,
    Seq<char>,
    Seq<char>,
    Seq<char>,
    Seq<char>,
    Seq<char>,
))
    requires
        line_disables(line),
    ensures
        ({
            let (a, key, b, c, v, d) = parts;
            &&& line == (a + key + b) + seq!['='] + (c + v + d)
            &&& text::is_blank(a) && text::is_blank(b) && text::is_blank(c) && text::is_blank(d)
            &&& (key == "Hidden"@ && is_the_word_true(v)) || (key == "X-GNOME-Autostart-enabled"@
                && is_the_word_false(v))
        }),
{
    let eq = first_index(line, '=', 0);
    lemma_first_index(line, '=', 0);
    let key = text::trimmed(line.take(eq));
    let v = text::trimmed(line.skip(eq + 1));
    lemma_true_and_false_in_any_case(v);
    let (a, b) = text::law_trimming_leaves_the_inside(line.take(eq));
    let (c, d) = text::law_trimming_leaves_the_inside(line.skip(eq + 1));
    assert(line =~= line.take(eq) + seq!['='] + line.skip(eq + 1));
    (a, key, b, c, v, d)
}

/// Whatever else an entry says, one disabling line among its lines is enough, and
/// without one it is enabled: the lines round it do not count.
pub proof fn law_one_disabling_line_is_enough(before: Seq<char>, line: Seq<char>, after: Seq<char>)
    requires
        is_one_line(line),
        before.len() > 0 ==> before.last() == '\n',
        after.len() > 0 ==> after.first() == '\n',
    ensures
        line_disables(line) ==> !entry_enabled(before + line + after),
        !line_disables(line) && entry_enabled(before) && entry_enabled(after) ==> entry_enabled(
            before + line + after,
        ),
{
    let s = before + line + after;
    let i = before.len() as int;
    let j = i + line.len();
    law_enabled_unless_a_line_disables(s);
    law_enabled_unless_a_line_disables(before);
    law_enabled_unless_a_line_disables(after);
    assert forall|k: int| i <= k < j implies s[k] != '\n' by {
        assert(s[k] == line[k - i]);
    }
    assert(i > 0 ==> s[i - 1] == before.last());
    assert(j < s.len() ==> s[j] == after.first());
    assert(is_line(s, i, j));
    assert(s.subrange(i, j) =~= line);
    if !line_disables(line) && entry_enabled(before) && entry_enabled(after) {
        assert forall|p: int, q: int| #[trigger] is_line(s, p, q) implies !line_disables(
            s.subrange(p, q),
        ) by {
            if p < i {
                if q >= i {
                    assert(s[i - 1] == '\n');
                }
                assert(q < i);
                assert forall|k: int| 0 <= k < i implies s[k] == before[k] by {}
                assert(is_line(before, p, q));
                assert(s.subrange(p, q) =~= before.subrange(p, q));
            } else if p > j {
                assert forall|k: int| j <= k < s.len() implies s[k] == after[k - j] by {}
                assert(after[p - j - 1] == s[p - 1]);
                assert forall|k: int| p - j <= k < q - j implies after[k] != '\n' by {
                    assert(s[k + j] == after[k]);
                }
                assert(q < s.len() ==> after[q - j] == s[q]);
                assert(is_line(after, p - j, q - j));
                assert(s.subrange(p, q) =~= after.subrange(p - j, q - j));
            } else {
                if p > i {
                    assert(s[p - 1] != '\n');
                }
                assert(p == i);
                if q < j {
                    assert(s[q] != '\n');
                }
                if q > j {
                    assert(s[j] == '\n');
                }
                assert(q == j);
            }
        }
    }
}

} // verus!
