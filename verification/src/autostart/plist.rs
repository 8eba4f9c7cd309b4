//! The `LaunchAgent` property list: composing its XML, and reading a program
//! path back out of it.

use vstd::prelude::*;
use vstd::slice::slice_subrange;

use crate::text;

verus! {

/// The launchd job label, also the plist's base file name.
pub const LABEL: &'static str = "io.github.itabajah.duja";

/// The plist file name Duja registers under.
pub fn plist_file_name() -> (name: String)
    ensures
        name@ == "io.github.itabajah.duja.plist"@,
{
    "io.github.itabajah.duja.plist".to_owned()
}

// -- XML text -------------------------------------------------------------

/// The element text of one character.
pub open spec fn escaped_char(c: char) -> Seq<char> {
    if c == '&' {
        seq!['&', 'a', 'm', 'p', ';']
    } else if c == '<' {
        seq!['&', 'l', 't', ';']
    } else if c == '>' {
        seq!['&', 'g', 't', ';']
    } else {
        seq![c]
    }
}

/// `s` as element text.
pub open spec fn xml_escaped(s: Seq<char>) -> Seq<char>
    decreases s.len(),
{
    if s.len() == 0 {
        Seq::empty()
    } else {
        xml_escaped(s.drop_last()) + escaped_char(s.last())
    }
}

/// `s` with every `from`, taken from the left, replaced by `to`.
pub open spec fn replaced(s: Seq<char>, from: Seq<char>, to: Seq<char>) -> Seq<char>
    decreases s.len(),
{
    if s.len() == 0 || from.len() == 0 {
        s
    } else if text::occurs_at(s, from, 0) {
        to + replaced(s.skip(from.len() as int), from, to)
    } else {
        seq![s[0]] + replaced(s.drop_first(), from, to)
    }
}

/// The text an element's content stands for. `&amp;` is undone last, so that an
/// escaped `&lt;` comes back as `&lt;` and not as `<`.
pub open spec fn xml_unescaped(s: Seq<char>) -> Seq<char> {
    replaced(
        replaced(replaced(s, seq!['&', 'l', 't', ';'], seq!['<']), seq!['&', 'g', 't', ';'], seq!['>']),
        seq!['&', 'a', 'm', 'p', ';'],
        seq!['&'],
    )
}

/// Escape the characters that matter in element text.
pub fn xml_escape(s: &[char]) -> (escaped: Vec<char>)
    ensures
        escaped@ == xml_escaped(s@),
{
    let mut escaped: Vec<char> = Vec::new();
    let mut i: usize = 0;
    assert(s@.take(0) == Seq::<char>::empty());
    while i < s.len()
        invariant
            i <= s.len(),
            escaped@ == xml_escaped(s@.take(i as int)),
        decreases s.len() - i,
    {
        let c: char = s[i];
        let ghost before = escaped@;
        proof {
            let longer = s@.take(i + 1);
            assert(longer.drop_last() == s@.take(i as int));
            assert(longer.last() == c);
        }
        if c == '&' {
            escaped.push('&');
            escaped.push('a');
            escaped.push('m');
            escaped.push('p');
            escaped.push(';');
        } else if c == '<' {
            escaped.push('&');
            escaped.push('l');
            escaped.push('t');
            escaped.push(';');
        } else if c == '>' {
            escaped.push('&');
            escaped.push('g');
            escaped.push('t');
            escaped.push(';');
        } else {
            escaped.push(c);
        }
        assert(escaped@ =~= before + escaped_char(c));
        i += 1;
    }
    assert(s@.take(s@.len() as int) == s@);
    escaped
}

/// Replace every `from` by `to`, from the left.
fn replace(s: &[char], from: &[char], to: &[char]) -> (out: Vec<char>)
    requires
        from@.len() > 0,
    ensures
        out@ == replaced(s@, from@, to@),
{
    let mut out: Vec<char> = Vec::new();
    let mut i: usize = 0;
    assert(s@.skip(0) == s@);
    assert(Seq::<char>::empty() + replaced(s@, from@, to@) == replaced(s@, from@, to@));
    while i < s.len()
        invariant
            i <= s.len(),
            from@.len() > 0,
            out@ + replaced(s@.skip(i as int), from@, to@) == replaced(s@, from@, to@),
        decreases s.len() - i,
    {
        let ghost rest = s@.skip(i as int);
        let ghost before = out@;
        let hit: bool = if from.len() <= s.len() - i {
            text::same_chars(slice_subrange(s, i, i + from.len()), from)
        } else {
            false
        };
        proof {
            if from@.len() <= rest.len() {
                assert(rest.subrange(0, from@.len() as int) =~= s@.subrange(
                    i as int,
                    i + from@.len(),
                ));
            }
            assert(hit == text::occurs_at(rest, from@, 0));
        }
        if hit {
            let mut k: usize = 0;
            while k < to.len()
                invariant
                    k <= to.len(),
                    out@ == before + to@.take(k as int),
                decreases to.len() - k,
            {
                out.push(to[k]);
                assert(to@.take(k + 1) == to@.take(k as int).push(to@[k as int]));
                k += 1;
            }
            assert(to@.take(to@.len() as int) == to@);
            assert(rest.skip(from@.len() as int) == s@.skip(i + from@.len()));
            assert(out@ + replaced(s@.skip(i + from@.len()), from@, to@) =~= before + (to@
                + replaced(s@.skip(i + from@.len()), from@, to@)));
            i += from.len();
        } else {
            out.push(s[i]);
            assert(rest.drop_first() == s@.skip(i + 1));
            assert(rest[0] == s@[i as int]);
            assert(out@ + replaced(s@.skip(i + 1), from@, to@) =~= before + (seq![rest[0]]
                + replaced(s@.skip(i + 1), from@, to@)));
            i += 1;
        }
    }
    assert(s@.skip(s@.len() as int) == Seq::<char>::empty());
    assert(out@ + Seq::<char>::empty() == out@);
    out
}

/// Reverse [`xml_escape`].
pub fn xml_unescape(s: &[char]) -> (text: Vec<char>)
    ensures
        text@ == xml_unescaped(s@),
{
    let lt: [char; 4] = ['&', 'l', 't', ';'];
    let gt: [char; 4] = ['&', 'g', 't', ';'];
    let amp: [char; 5] = ['&', 'a', 'm', 'p', ';'];
    assert(lt@ =~= seq!['&', 'l', 't', ';']);
    assert(gt@ =~= seq!['&', 'g', 't', ';']);
    assert(amp@ =~= seq!['&', 'a', 'm', 'p', ';']);
    let less: [char; 1] = ['<'];
    let greater: [char; 1] = ['>'];
    let and: [char; 1] = ['&'];
    assert(less@ =~= seq!['<']);
    assert(greater@ =~= seq!['>']);
    assert(and@ =~= seq!['&']);
    let once: Vec<char> = replace(s, lt.as_slice(), less.as_slice());
    let twice: Vec<char> = replace(once.as_slice(), gt.as_slice(), greater.as_slice());
    replace(twice.as_slice(), amp.as_slice(), and.as_slice())
}

// -- The document ---------------------------------------------------------

/// The document up to the program's path.
pub open spec fn plist_head() -> Seq<char> {
    "<?xml version=\"1.0\" encoding=\"UTF-8\"?>\n<!DOCTYPE plist PUBLIC \"-//Apple//DTD PLIST 1.0//EN\" \"http://www.apple.com/DTDs/PropertyList-1.0.dtd\">\n<plist version=\"1.0\">\n<dict>\n\t<key>Label</key>\n\t<string>io.github.itabajah.duja</string>\n"@
        + "\t<key>ProgramArguments</key>\n\t<array>\n\t\t<string>"@
}

/// The document after the program's path.
pub open spec fn plist_tail() -> Seq<char> {
    "</string>\n\t</array>\n\t<key>RunAtLoad</key>\n\t<true/>\n\t<key>LimitLoadToSessionType</key>\n\t<string>Aqua</string>\n</dict>\n</plist>\n"@
}

/// The property list that starts `exe` at login.
pub open spec fn plist_for(exe: Seq<char>) -> Seq<char> {
    plist_head() + xml_escaped(exe) + plist_tail()
}

/// Compose the `LaunchAgent` plist for an executable path: the label, the
/// executable as its one program argument, started at login and only in a
/// graphical session.
pub fn generate_plist(exe: &str) -> (plist: String)
    ensures
        plist@ == plist_for(exe@),
        plist@
            == "<?xml version=\"1.0\" encoding=\"UTF-8\"?>\n<!DOCTYPE plist PUBLIC \"-//Apple//DTD PLIST 1.0//EN\" \"http://www.apple.com/DTDs/PropertyList-1.0.dtd\">\n<plist version=\"1.0\">\n<dict>\n\t<key>Label</key>\n\t<string>io.github.itabajah.duja</string>\n"@
            + "\t<key>ProgramArguments</key>\n\t<array>\n\t\t<string>"@ + xml_escaped(exe@)
            + "</string>\n\t</array>\n\t<key>RunAtLoad</key>\n\t<true/>\n\t<key>LimitLoadToSessionType</key>\n\t<string>Aqua</string>\n</dict>\n</plist>\n"@,
{
    let program: Vec<char> = xml_escape(text::chars_of(exe).as_slice());
    let mut plist: String =
        "<?xml version=\"1.0\" encoding=\"UTF-8\"?>\n<!DOCTYPE plist PUBLIC \"-//Apple//DTD PLIST 1.0//EN\" \"http://www.apple.com/DTDs/PropertyList-1.0.dtd\">\n<plist version=\"1.0\">\n<dict>\n\t<key>Label</key>\n\t<string>io.github.itabajah.duja</string>\n".to_owned();
    plist.append("\t<key>ProgramArguments</key>\n\t<array>\n\t\t<string>");
    text::push_chars(&mut plist, program.as_slice());
    plist.append(
        "</string>\n\t</array>\n\t<key>RunAtLoad</key>\n\t<true/>\n\t<key>LimitLoadToSessionType</key>\n\t<string>Aqua</string>\n</dict>\n</plist>\n",
    );
    plist
}

/// `ProgramArguments[0]` of a document: the first string of the first array
/// after the key, unescaped.
pub open spec fn program_argument0(plist: Seq<char>) -> Option<Seq<char>> {
    match text::first_occurrence(plist, "<key>ProgramArguments</key>"@, 0) {
        None => None,
        Some(key) => match text::first_occurrence(plist, "<array>"@, key) {
            None => None,
            Some(array) => match text::first_occurrence(plist, "<string>"@, array) {
                None => None,
                Some(open) => match text::first_occurrence(plist, "</string>"@, open + 8) {
                    None => None,
                    Some(close) => Some(xml_unescaped(plist.subrange(open + 8, close))),
                },
            },
        },
    }
}

/// A string that may be absent, as its text.
pub open spec fn opt_string(s: Option<String>) -> Option<Seq<char>> {
    match s {
        Some(s) => Some(s@),
        None => None,
    }
}

/// Extract `ProgramArguments[0]` from a plist, or `None` if the document has no
/// such entry.
pub fn parse_program_argument0(plist: &str) -> (program: Option<String>)
    ensures
        opt_string(program) == program_argument0(plist@),
        match program {
            Some(path) => program_argument0(plist@) == Some(path@),
            None => program_argument0(plist@) is None,
        },
{
    let doc: Vec<char> = text::chars_of(plist);
    let hay: &[char] = doc.as_slice();
    let key: usize = match text::find(
        hay,
        text::chars_of("<key>ProgramArguments</key>").as_slice(),
        0,
    ) {
        Some(at) => at,
        None => return None,
    };
    let array: usize = match text::find(hay, text::chars_of("<array>").as_slice(), key) {
        Some(at) => at,
        None => return None,
    };
    let open: usize = match text::find(hay, text::chars_of("<string>").as_slice(), array) {
        Some(at) => at,
        None => return None,
    };
    proof {
        reveal_strlit("<string>");
        text::lemma_first_occurrence(plist@, "<string>"@, array as int);
        assert(text::occurs_at(plist@, "<string>"@, open as int));
        assert(open + 8 <= hay.len());
    }
    let start: usize = open + 8;
    let close: usize = match text::find(hay, text::chars_of("</string>").as_slice(), start) {
        Some(at) => at,
        None => return None,
    };
    proof {
        text::lemma_first_occurrence(plist@, "</string>"@, start as int);
    }
    let inner: Vec<char> = xml_unescape(slice_subrange(hay, start, close));
    Some(text::string_of(inner.as_slice()))
}

// -- What is generated parses back ----------------------------------------

/// The text of `s` with one kind of entity already undone for each flag.
spec fn partly(s: Seq<char>, lt: bool, gt: bool, amp: bool) -> Seq<char>
    decreases s.len(),
{
    if s.len() == 0 {
        Seq::empty()
    } else {
        let c = s[0];
        let first = if (c == '<' && lt) || (c == '>' && gt) || (c == '&' && amp) {
            seq![c]
        } else {
            escaped_char(c)
        };
        first + partly(s.drop_first(), lt, gt, amp)
    }
}

proof fn lemma_escaped_from_the_front(s: Seq<char>)
    ensures
        xml_escaped(s) == partly(s, false, false, false),
    decreases s.len(),
{
    if s.len() == 1 {
        assert(s.drop_last() == Seq::<char>::empty());
        assert(s.drop_first() == Seq::<char>::empty());
        assert(xml_escaped(s.drop_last()) == Seq::<char>::empty());
        assert(partly(s.drop_first(), false, false, false) == Seq::<char>::empty());
        assert(xml_escaped(s) =~= partly(s, false, false, false));
    } else if s.len() > 1 {
        lemma_escaped_from_the_front(s.drop_last());
        lemma_escaped_from_the_front(s.drop_first());
        let mid = s.drop_first().drop_last();
        assert(s.drop_last().drop_first() == mid);
        lemma_escaped_from_the_front(mid);
        assert(s.drop_last()[0] == s[0]);
        assert(s.drop_first().last() == s.last());
        assert(xml_escaped(s) =~= escaped_char(s[0]) + xml_escaped(mid) + escaped_char(s.last()));
    }
}

/// Replacing steps over a front whose characters cannot begin a match.
proof fn lemma_replaced_steps_over(
    front: Seq<char>,
    rest: Seq<char>,
    from: Seq<char>,
    to: Seq<char>,
)
    requires
        from.len() >= 2,
        from[0] == '&',
        front.len() > 0,
        front[0] != '&' || (front.len() > 1 && front[1] != from[1]),
        forall|i: int| 1 <= i < front.len() ==> front[i] != '&',
    ensures
        replaced(front + rest, from, to) == front + replaced(rest, from, to),
    decreases front.len(),
{
    let s = front + rest;
    assert(!text::occurs_at(s, from, 0)) by {
        if text::occurs_at(s, from, 0) {
            let window = s.subrange(0, from.len() as int);
            assert(window[0] == s[0] && window[1] == s[1]);
            assert(s[0] == front[0]);
        }
    }
    assert(s.drop_first() == front.drop_first() + rest);
    if front.len() > 1 {
        let tail = front.drop_first();
        assert(tail[0] == front[1]);
        assert forall|i: int| 1 <= i < tail.len() implies tail[i] != '&' by {
            assert(tail[i] == front[i + 1]);
        }
        lemma_replaced_steps_over(tail, rest, from, to);
        assert(seq![s[0]] + (tail + replaced(rest, from, to)) =~= front + replaced(rest, from, to));
    } else {
        assert(front.drop_first() + rest =~= rest);
        assert(seq![s[0]] + replaced(rest, from, to) =~= front + replaced(rest, from, to));
    }
}

/// Replacing takes a match at the front.
proof fn lemma_replaced_takes(rest: Seq<char>, from: Seq<char>, to: Seq<char>)
    requires
        from.len() > 0,
    ensures
        replaced(from + rest, from, to) == to + replaced(rest, from, to),
{
    let s = from + rest;
    assert(s.subrange(0, from.len() as int) =~= from);
    assert(s.skip(from.len() as int) =~= rest);
}

proof fn lemma_undo_lt(s: Seq<char>)
    ensures
        replaced(partly(s, false, false, false), seq!['&', 'l', 't', ';'], seq!['<']) == partly(
            s,
            true,
            false,
            false,
        ),
    decreases s.len(),
{
    if s.len() > 0 {
        let c = s[0];
        let rest = partly(s.drop_first(), false, false, false);
        lemma_undo_lt(s.drop_first());
        if c == '<' {
            lemma_replaced_takes(rest, seq!['&', 'l', 't', ';'], seq!['<']);
        } else {
            lemma_replaced_steps_over(escaped_char(c), rest, seq!['&', 'l', 't', ';'], seq!['<']);
        }
    }
}

proof fn lemma_undo_gt(s: Seq<char>)
    ensures
        replaced(partly(s, true, false, false), seq!['&', 'g', 't', ';'], seq!['>']) == partly(
            s,
            true,
            true,
            false,
        ),
    decreases s.len(),
{
    if s.len() > 0 {
        let c = s[0];
        let rest = partly(s.drop_first(), true, false, false);
        lemma_undo_gt(s.drop_first());
        if c == '>' {
            lemma_replaced_takes(rest, seq!['&', 'g', 't', ';'], seq!['>']);
        } else if c == '&' {
            lemma_replaced_steps_over(escaped_char(c), rest, seq!['&', 'g', 't', ';'], seq!['>']);
        } else {
            lemma_replaced_steps_over(seq![c], rest, seq!['&', 'g', 't', ';'], seq!['>']);
        }
    }
}

proof fn lemma_undo_amp(s: Seq<char>)
    ensures
        replaced(partly(s, true, true, false), seq!['&', 'a', 'm', 'p', ';'], seq!['&']) == s,
    decreases s.len(),
{
    if s.len() > 0 {
        let c = s[0];
        let rest = partly(s.drop_first(), true, true, false);
        lemma_undo_amp(s.drop_first());
        if c == '&' {
            lemma_replaced_takes(rest, seq!['&', 'a', 'm', 'p', ';'], seq!['&']);
        } else {
            lemma_replaced_steps_over(seq![c], rest, seq!['&', 'a', 'm', 'p', ';'], seq!['&']);
        }
        assert(seq![c] + s.drop_first() =~= s);
    }
}

/// Unescaping undoes escaping, whatever the text.
pub proof fn law_unescape_undoes_escape(s: Seq<char>)
    ensures
        xml_unescaped(xml_escaped(s)) == s,
{
    lemma_escaped_from_the_front(s);
    lemma_undo_lt(s);
    lemma_undo_gt(s);
    lemma_undo_amp(s);
}

/// Escaped text holds no markup.
pub proof fn law_escaped_text_has_no_markup(s: Seq<char>)
    ensures
        forall|i: int|
            0 <= i < xml_escaped(s).len() ==> #[trigger] xml_escaped(s)[i] != '<'
                && xml_escaped(s)[i] != '>',
    decreases s.len(),
{
    if s.len() > 0 {
        law_escaped_text_has_no_markup(s.drop_last());
        let front = xml_escaped(s.drop_last());
        assert forall|i: int| 0 <= i < xml_escaped(s).len() implies #[trigger] xml_escaped(s)[i]
            != '<' && xml_escaped(s)[i] != '>' by {
            if i < front.len() {
                assert(xml_escaped(s)[i] == front[i]);
            } else {
                assert(xml_escaped(s)[i] == escaped_char(s.last())[i - front.len()]);
            }
        }
    }
}

/// Whether no position of `s` from `at` on can be where a tag `<` + `second` ..
/// begins, judged by the second character, or by the sixth being `sixth`.
spec fn no_tag(s: Seq<char>, second: char, sixth: char, at: int) -> bool
    decreases s.len() - at,
{
    if at < 0 || at >= s.len() {
        true
    } else {
        &&& s[at] == '<' ==> at + 1 < s.len() && (s[at + 1] != second || (at + 5 < s.len() && s[at
            + 5] != sixth))
        &&& no_tag(s, second, sixth, at + 1)
    }
}

proof fn lemma_no_tag(s: Seq<char>, second: char, sixth: char, at: int, i: int)
    requires
        no_tag(s, second, sixth, at),
        0 <= at <= i < s.len(),
    ensures
        s[i] == '<' ==> i + 1 < s.len() && (s[i + 1] != second || (i + 5 < s.len() && s[i + 5]
            != sixth)),
    decreases i - at,
{
    if at < i {
        lemma_no_tag(s, second, sixth, at + 1, i);
    }
}

proof fn lemma_head_has_no_earlier_key()
    ensures
        no_tag("<?xml version=\"1.0\" encoding=\"UTF-8\"?>\n<!DOCTYPE plist PUBLIC \"-//Apple//DTD PLIST 1.0//EN\" \"http://www.apple.com/DTDs/PropertyList-1.0.dtd\">\n<plist version=\"1.0\">\n<dict>\n\t<key>Label</key>\n\t<string>io.github.itabajah.duja</string>\n"@, 'k', 'P', 0),
        "<?xml version=\"1.0\" encoding=\"UTF-8\"?>\n<!DOCTYPE plist PUBLIC \"-//Apple//DTD PLIST 1.0//EN\" \"http://www.apple.com/DTDs/PropertyList-1.0.dtd\">\n<plist version=\"1.0\">\n<dict>\n\t<key>Label</key>\n\t<string>io.github.itabajah.duja</string>\n"@.len() == 231,
{
    let head = "<?xml version=\"1.0\" encoding=\"UTF-8\"?>\n<!DOCTYPE plist PUBLIC \"-//Apple//DTD PLIST 1.0//EN\" \"http://www.apple.com/DTDs/PropertyList-1.0.dtd\">\n<plist version=\"1.0\">\n<dict>\n\t<key>Label</key>\n\t<string>io.github.itabajah.duja</string>\n"@;
    reveal_strlit("<?xml version=\"1.0\" encoding=\"UTF-8\"?>\n<!DOCTYPE plist PUBLIC \"-//Apple//DTD PLIST 1.0//EN\" \"http://www.apple.com/DTDs/PropertyList-1.0.dtd\">\n<plist version=\"1.0\">\n<dict>\n\t<key>Label</key>\n\t<string>io.github.itabajah.duja</string>\n");
    reveal_with_fuel(no_tag, 27);
    assert(no_tag(head, 'k', 'P', 225));
    assert(no_tag(head, 'k', 'P', 200));
    assert(no_tag(head, 'k', 'P', 175));
    assert(no_tag(head, 'k', 'P', 150));
    assert(no_tag(head, 'k', 'P', 125));
    assert(no_tag(head, 'k', 'P', 100));
    assert(no_tag(head, 'k', 'P', 75));
    assert(no_tag(head, 'k', 'P', 50));
    assert(no_tag(head, 'k', 'P', 25));
}

/// Whether a tag begins in `s`, from `at` on, only at one of four places.
spec fn tags_only(s: Seq<char>, a: int, b: int, c: int, d: int, at: int) -> bool
    decreases s.len() - at,
{
    if at < 0 || at >= s.len() {
        true
    } else {
        (s[at] == '<' ==> at == a || at == b || at == c || at == d) && tags_only(
            s,
            a,
            b,
            c,
            d,
            at + 1,
        )
    }
}

proof fn lemma_tags_only(s: Seq<char>, a: int, b: int, c: int, d: int, at: int, i: int)
    requires
        tags_only(s, a, b, c, d, at),
        0 <= at <= i < s.len(),
        s[i] == '<',
    ensures
        i == a || i == b || i == c || i == d,
    decreases i - at,
{
    if at < i {
        lemma_tags_only(s, a, b, c, d, at + 1, i);
    }
}

proof fn lemma_args_tags()
    ensures
        tags_only("\t<key>ProgramArguments</key>\n\t<array>\n\t\t<string>"@, 1, 22, 30, 40, 0),
{
    reveal_strlit("\t<key>ProgramArguments</key>\n\t<array>\n\t\t<string>");
    reveal_with_fuel(tags_only, 50);
}

/// Reading the program back out of a generated document gives the path it was
/// generated for, whatever characters the path holds.
pub proof fn law_generated_plist_parses_back(exe: Seq<char>)
    ensures
        program_argument0(plist_for(exe)) == Some(exe),
{
    let head = "<?xml version=\"1.0\" encoding=\"UTF-8\"?>\n<!DOCTYPE plist PUBLIC \"-//Apple//DTD PLIST 1.0//EN\" \"http://www.apple.com/DTDs/PropertyList-1.0.dtd\">\n<plist version=\"1.0\">\n<dict>\n\t<key>Label</key>\n\t<string>io.github.itabajah.duja</string>\n"@;
    let args = "\t<key>ProgramArguments</key>\n\t<array>\n\t\t<string>"@;
    let tail = "</string>\n\t</array>\n\t<key>RunAtLoad</key>\n\t<true/>\n\t<key>LimitLoadToSessionType</key>\n\t<string>Aqua</string>\n</dict>\n</plist>\n"@;
    let body = xml_escaped(exe);
    let doc = plist_for(exe);
    let key = "<key>ProgramArguments</key>"@;
    let array = "<array>"@;
    let open = "<string>"@;
    let close = "</string>"@;
    let n = head.len() as int;
    lemma_head_has_no_earlier_key();
    lemma_args_tags();
    law_escaped_text_has_no_markup(exe);
    law_unescape_undoes_escape(exe);
    reveal_strlit("\t<key>ProgramArguments</key>\n\t<array>\n\t\t<string>");
    reveal_strlit("</string>\n\t</array>\n\t<key>RunAtLoad</key>\n\t<true/>\n\t<key>LimitLoadToSessionType</key>\n\t<string>Aqua</string>\n</dict>\n</plist>\n");
    reveal_strlit("<key>ProgramArguments</key>");
    reveal_strlit("<array>");
    reveal_strlit("<string>");
    reveal_strlit("</string>");
    let inner = n + 48;
    assert(doc =~= head + args + body + tail);
    assert forall|i: int| 0 <= i < n implies doc[i] == head[i] by {}
    assert forall|i: int| n <= i < inner implies doc[i] == args[i - n] by {}
    assert forall|i: int| inner <= i < inner + body.len() implies doc[i] == body[i - inner] by {}
    assert forall|i: int| inner + body.len() <= i < doc.len() implies doc[i] == tail[i - inner
        - body.len()] by {}

    // The key.
    assert(doc.subrange(n + 1, n + 1 + key.len()) =~= key);
    assert forall|j: int| 0 <= j < n + 1 implies !text::occurs_at(doc, key, j) by {
        if text::occurs_at(doc, key, j) {
            let window = doc.subrange(j, j + key.len());
            assert(window[0] == doc[j] && window[1] == doc[j + 1] && window[5] == doc[j + 5]);
            if j < n {
                lemma_no_tag(head, 'k', 'P', 0, j);
            }
        }
    }
    text::lemma_first_occurrence_unique(doc, key, 0, n + 1);

    // The array.
    assert(doc.subrange(n + 30, n + 30 + array.len()) =~= array);
    assert forall|j: int| n + 1 <= j < n + 30 implies !text::occurs_at(doc, array, j) by {
        if text::occurs_at(doc, array, j) {
            let window = doc.subrange(j, j + array.len());
            assert(window[0] == doc[j] && window[1] == doc[j + 1]);
            lemma_tags_only(args, 1, 22, 30, 40, 0, j - n);
        }
    }
    text::lemma_first_occurrence_unique(doc, array, n + 1, n + 30);

    // The string.
    assert(doc.subrange(n + 40, n + 40 + open.len()) =~= open);
    assert forall|j: int| n + 30 <= j < n + 40 implies !text::occurs_at(doc, open, j) by {
        if text::occurs_at(doc, open, j) {
            let window = doc.subrange(j, j + open.len());
            assert(window[0] == doc[j] && window[1] == doc[j + 1]);
            lemma_tags_only(args, 1, 22, 30, 40, 0, j - n);
        }
    }
    text::lemma_first_occurrence_unique(doc, open, n + 30, n + 40);

    // Its end.
    let end = inner + body.len();
    assert(doc.subrange(end, end + close.len()) =~= close);
    assert forall|j: int| inner <= j < end implies !text::occurs_at(doc, close, j) by {
        if text::occurs_at(doc, close, j) {
            let window = doc.subrange(j, j + close.len());
            assert(window[0] == doc[j]);
            assert(doc[j] == body[j - inner]);
        }
    }
    text::lemma_first_occurrence_unique(doc, close, inner, end);
    assert(doc.subrange(inner, end) =~= body);
}

// -- Reading a document tag by tag ------------------------------------------

spec fn head_tags() -> Seq<Seq<char>> {
    seq![Seq::<char>::empty(), "?xml version=\"1.0\" encoding=\"UTF-8\"?>\n"@, "!DOCTYPE plist PUBLIC \"-//Apple//DTD PLIST 1.0//EN\" \"http://www.apple.com/DTDs/PropertyList-1.0.dtd\">\n"@, "plist version=\"1.0\">\n"@, "dict>\n\t"@, "key>Label"@, "/key>\n\t"@, "string>io.github.itabajah.duja"@, "/string>\n"@]
}

proof fn lemma_head_in_tags()
    ensures
        "<?xml version=\"1.0\" encoding=\"UTF-8\"?>\n<!DOCTYPE plist PUBLIC \"-//Apple//DTD PLIST 1.0//EN\" \"http://www.apple.com/DTDs/PropertyList-1.0.dtd\">\n<plist version=\"1.0\">\n<dict>\n\t<key>Label</key>\n\t<string>io.github.itabajah.duja</string>\n"@ == text::separated(head_tags(), '<'),
        forall|i: int| 0 <= i < head_tags().len() ==> text::lacks(#[trigger] head_tags()[i], '<'),
{
    let parts = head_tags();
    reveal_strlit("<?xml version=\"1.0\" encoding=\"UTF-8\"?>\n<!DOCTYPE plist PUBLIC \"-//Apple//DTD PLIST 1.0//EN\" \"http://www.apple.com/DTDs/PropertyList-1.0.dtd\">\n<plist version=\"1.0\">\n<dict>\n\t<key>Label</key>\n\t<string>io.github.itabajah.duja</string>\n");
    reveal_strlit("?xml version=\"1.0\" encoding=\"UTF-8\"?>\n");
    reveal_strlit("!DOCTYPE plist PUBLIC \"-//Apple//DTD PLIST 1.0//EN\" \"http://www.apple.com/DTDs/PropertyList-1.0.dtd\">\n");
    reveal_strlit("plist version=\"1.0\">\n");
    reveal_strlit("dict>\n\t");
    reveal_strlit("key>Label");
    reveal_strlit("/key>\n\t");
    reveal_strlit("string>io.github.itabajah.duja");
    reveal_strlit("/string>\n");
    assert(text::lacks("?xml version=\"1.0\" encoding=\"UTF-8\"?>\n"@, '<')) by {
        reveal_with_fuel(text::free_from, 32);
        assert(text::free_from("?xml version=\"1.0\" encoding=\"UTF-8\"?>\n"@, '<', 30));
        text::lemma_free_from("?xml version=\"1.0\" encoding=\"UTF-8\"?>\n"@, '<', 0);
    }
    assert(text::lacks("!DOCTYPE plist PUBLIC \"-//Apple//DTD PLIST 1.0//EN\" \"http://www.apple.com/DTDs/PropertyList-1.0.dtd\">\n"@, '<')) by {
        reveal_with_fuel(text::free_from, 32);
        assert(text::free_from("!DOCTYPE plist PUBLIC \"-//Apple//DTD PLIST 1.0//EN\" \"http://www.apple.com/DTDs/PropertyList-1.0.dtd\">\n"@, '<', 90));
        assert(text::free_from("!DOCTYPE plist PUBLIC \"-//Apple//DTD PLIST 1.0//EN\" \"http://www.apple.com/DTDs/PropertyList-1.0.dtd\">\n"@, '<', 60));
        assert(text::free_from("!DOCTYPE plist PUBLIC \"-//Apple//DTD PLIST 1.0//EN\" \"http://www.apple.com/DTDs/PropertyList-1.0.dtd\">\n"@, '<', 30));
        text::lemma_free_from("!DOCTYPE plist PUBLIC \"-//Apple//DTD PLIST 1.0//EN\" \"http://www.apple.com/DTDs/PropertyList-1.0.dtd\">\n"@, '<', 0);
    }
    assert(text::lacks("plist version=\"1.0\">\n"@, '<')) by {
        reveal_with_fuel(text::free_from, 32);
        text::lemma_free_from("plist version=\"1.0\">\n"@, '<', 0);
    }
    assert(text::lacks("dict>\n\t"@, '<')) by {
        reveal_with_fuel(text::free_from, 32);
        text::lemma_free_from("dict>\n\t"@, '<', 0);
    }
    assert(text::lacks("key>Label"@, '<')) by {
        reveal_with_fuel(text::free_from, 32);
        text::lemma_free_from("key>Label"@, '<', 0);
    }
    assert(text::lacks("/key>\n\t"@, '<')) by {
        reveal_with_fuel(text::free_from, 32);
        text::lemma_free_from("/key>\n\t"@, '<', 0);
    }
    assert(text::lacks("string>io.github.itabajah.duja"@, '<')) by {
        reveal_with_fuel(text::free_from, 32);
        text::lemma_free_from("string>io.github.itabajah.duja"@, '<', 0);
    }
    assert(text::lacks("/string>\n"@, '<')) by {
        reveal_with_fuel(text::free_from, 32);
        text::lemma_free_from("/string>\n"@, '<', 0);
    }
    let from8 = "/string>\n"@;
    let parts8: Seq<Seq<char>> = seq![from8];
    assert(text::separated(parts8, '<') == from8);
    let from7 = "string>io.github.itabajah.duja"@ + seq!['<'] + from8;
    let parts7 = seq!["string>io.github.itabajah.duja"@] + parts8;
    assert(parts7.drop_first() =~= parts8);
    assert(text::separated(parts7, '<') == from7);
    let from6 = "/key>\n\t"@ + seq!['<'] + from7;
    let parts6 = seq!["/key>\n\t"@] + parts7;
    assert(parts6.drop_first() =~= parts7);
    assert(text::separated(parts6, '<') == from6);
    let from5 = "key>Label"@ + seq!['<'] + from6;
    let parts5 = seq!["key>Label"@] + parts6;
    assert(parts5.drop_first() =~= parts6);
    assert(text::separated(parts5, '<') == from5);
    let from4 = "dict>\n\t"@ + seq!['<'] + from5;
    let parts4 = seq!["dict>\n\t"@] + parts5;
    assert(parts4.drop_first() =~= parts5);
    assert(text::separated(parts4, '<') == from4);
    let from3 = "plist version=\"1.0\">\n"@ + seq!['<'] + from4;
    let parts3 = seq!["plist version=\"1.0\">\n"@] + parts4;
    assert(parts3.drop_first() =~= parts4);
    assert(text::separated(parts3, '<') == from3);
    let from2 = "!DOCTYPE plist PUBLIC \"-//Apple//DTD PLIST 1.0//EN\" \"http://www.apple.com/DTDs/PropertyList-1.0.dtd\">\n"@ + seq!['<'] + from3;
    let parts2 = seq!["!DOCTYPE plist PUBLIC \"-//Apple//DTD PLIST 1.0//EN\" \"http://www.apple.com/DTDs/PropertyList-1.0.dtd\">\n"@] + parts3;
    assert(parts2.drop_first() =~= parts3);
    assert(text::separated(parts2, '<') == from2);
    let from1 = "?xml version=\"1.0\" encoding=\"UTF-8\"?>\n"@ + seq!['<'] + from2;
    let parts1 = seq!["?xml version=\"1.0\" encoding=\"UTF-8\"?>\n"@] + parts2;
    assert(parts1.drop_first() =~= parts2);
    assert(text::separated(parts1, '<') == from1);
    let from0 = Seq::<char>::empty() + seq!['<'] + from1;
    let parts0 = seq![Seq::<char>::empty()] + parts1;
    assert(parts0.drop_first() =~= parts1);
    assert(text::separated(parts0, '<') == from0);
    assert(parts =~= parts0);
    assert("<?xml version=\"1.0\" encoding=\"UTF-8\"?>\n<!DOCTYPE plist PUBLIC \"-//Apple//DTD PLIST 1.0//EN\" \"http://www.apple.com/DTDs/PropertyList-1.0.dtd\">\n<plist version=\"1.0\">\n<dict>\n\t<key>Label</key>\n\t<string>io.github.itabajah.duja</string>\n"@ =~= from0);
    assert forall|i: int| 0 <= i < 9 implies text::lacks(#[trigger] parts[i], '<') by {
        assert(i == 0 || i == 1 || i == 2 || i == 3 || i == 4 || i == 5 || i == 6 || i == 7 || i == 8);
    }
}

spec fn arguments_tags() -> Seq<Seq<char>> {
    seq!["\t"@, "key>ProgramArguments"@, "/key>\n\t"@, "array>\n\t\t"@, "string>"@]
}

proof fn lemma_arguments_in_tags()
    ensures
        "\t<key>ProgramArguments</key>\n\t<array>\n\t\t<string>"@ == text::separated(arguments_tags(), '<'),
        forall|i: int| 0 <= i < arguments_tags().len() ==> text::lacks(#[trigger] arguments_tags()[i], '<'),
{
    let parts = arguments_tags();
    reveal_strlit("\t<key>ProgramArguments</key>\n\t<array>\n\t\t<string>");
    reveal_strlit("\t");
    reveal_strlit("key>ProgramArguments");
    reveal_strlit("/key>\n\t");
    reveal_strlit("array>\n\t\t");
    reveal_strlit("string>");
    assert(text::lacks("\t"@, '<')) by {
        reveal_with_fuel(text::free_from, 32);
        text::lemma_free_from("\t"@, '<', 0);
    }
    assert(text::lacks("key>ProgramArguments"@, '<')) by {
        reveal_with_fuel(text::free_from, 32);
        text::lemma_free_from("key>ProgramArguments"@, '<', 0);
    }
    assert(text::lacks("/key>\n\t"@, '<')) by {
        reveal_with_fuel(text::free_from, 32);
        text::lemma_free_from("/key>\n\t"@, '<', 0);
    }
    assert(text::lacks("array>\n\t\t"@, '<')) by {
        reveal_with_fuel(text::free_from, 32);
        text::lemma_free_from("array>\n\t\t"@, '<', 0);
    }
    assert(text::lacks("string>"@, '<')) by {
        reveal_with_fuel(text::free_from, 32);
        text::lemma_free_from("string>"@, '<', 0);
    }
    let from4 = "string>"@;
    let parts4: Seq<Seq<char>> = seq![from4];
    assert(text::separated(parts4, '<') == from4);
    let from3 = "array>\n\t\t"@ + seq!['<'] + from4;
    let parts3 = seq!["array>\n\t\t"@] + parts4;
    assert(parts3.drop_first() =~= parts4);
    assert(text::separated(parts3, '<') == from3);
    let from2 = "/key>\n\t"@ + seq!['<'] + from3;
    let parts2 = seq!["/key>\n\t"@] + parts3;
    assert(parts2.drop_first() =~= parts3);
    assert(text::separated(parts2, '<') == from2);
    let from1 = "key>ProgramArguments"@ + seq!['<'] + from2;
    let parts1 = seq!["key>ProgramArguments"@] + parts2;
    assert(parts1.drop_first() =~= parts2);
    assert(text::separated(parts1, '<') == from1);
    let from0 = "\t"@ + seq!['<'] + from1;
    let parts0 = seq!["\t"@] + parts1;
    assert(parts0.drop_first() =~= parts1);
    assert(text::separated(parts0, '<') == from0);
    assert(parts =~= parts0);
    assert("\t<key>ProgramArguments</key>\n\t<array>\n\t\t<string>"@ =~= from0);
    assert forall|i: int| 0 <= i < 5 implies text::lacks(#[trigger] parts[i], '<') by {
        assert(i == 0 || i == 1 || i == 2 || i == 3 || i == 4);
    }
}

spec fn tail_tags() -> Seq<Seq<char>> {
    seq![Seq::<char>::empty(), "/string>\n\t"@, "/array>\n\t"@, "key>RunAtLoad"@, "/key>\n\t"@, "true/>\n\t"@, "key>LimitLoadToSessionType"@, "/key>\n\t"@, "string>Aqua"@, "/string>\n"@, "/dict>\n"@, "/plist>\n"@]
}

proof fn lemma_tail_in_tags()
    ensures
        "</string>\n\t</array>\n\t<key>RunAtLoad</key>\n\t<true/>\n\t<key>LimitLoadToSessionType</key>\n\t<string>Aqua</string>\n</dict>\n</plist>\n"@ == text::separated(tail_tags(), '<'),
        forall|i: int| 0 <= i < tail_tags().len() ==> text::lacks(#[trigger] tail_tags()[i], '<'),
{
    let parts = tail_tags();
    reveal_strlit("</string>\n\t</array>\n\t<key>RunAtLoad</key>\n\t<true/>\n\t<key>LimitLoadToSessionType</key>\n\t<string>Aqua</string>\n</dict>\n</plist>\n");
    reveal_strlit("/string>\n\t");
    reveal_strlit("/array>\n\t");
    reveal_strlit("key>RunAtLoad");
    reveal_strlit("/key>\n\t");
    reveal_strlit("true/>\n\t");
    reveal_strlit("key>LimitLoadToSessionType");
    reveal_strlit("string>Aqua");
    reveal_strlit("/string>\n");
    reveal_strlit("/dict>\n");
    reveal_strlit("/plist>\n");
    assert(text::lacks("/string>\n\t"@, '<')) by {
        reveal_with_fuel(text::free_from, 32);
        text::lemma_free_from("/string>\n\t"@, '<', 0);
    }
    assert(text::lacks("/array>\n\t"@, '<')) by {
        reveal_with_fuel(text::free_from, 32);
        text::lemma_free_from("/array>\n\t"@, '<', 0);
    }
    assert(text::lacks("key>RunAtLoad"@, '<')) by {
        reveal_with_fuel(text::free_from, 32);
        text::lemma_free_from("key>RunAtLoad"@, '<', 0);
    }
    assert(text::lacks("/key>\n\t"@, '<')) by {
        reveal_with_fuel(text::free_from, 32);
        text::lemma_free_from("/key>\n\t"@, '<', 0);
    }
    assert(text::lacks("true/>\n\t"@, '<')) by {
        reveal_with_fuel(text::free_from, 32);
        text::lemma_free_from("true/>\n\t"@, '<', 0);
    }
    assert(text::lacks("key>LimitLoadToSessionType"@, '<')) by {
        reveal_with_fuel(text::free_from, 32);
        text::lemma_free_from("key>LimitLoadToSessionType"@, '<', 0);
    }
    assert(text::lacks("string>Aqua"@, '<')) by {
        reveal_with_fuel(text::free_from, 32);
        text::lemma_free_from("string>Aqua"@, '<', 0);
    }
    assert(text::lacks("/string>\n"@, '<')) by {
        reveal_with_fuel(text::free_from, 32);
        text::lemma_free_from("/string>\n"@, '<', 0);
    }
    assert(text::lacks("/dict>\n"@, '<')) by {
        reveal_with_fuel(text::free_from, 32);
        text::lemma_free_from("/dict>\n"@, '<', 0);
    }
    assert(text::lacks("/plist>\n"@, '<')) by {
        reveal_with_fuel(text::free_from, 32);
        text::lemma_free_from("/plist>\n"@, '<', 0);
    }
    let from11 = "/plist>\n"@;
    let parts11: Seq<Seq<char>> = seq![from11];
    assert(text::separated(parts11, '<') == from11);
    let from10 = "/dict>\n"@ + seq!['<'] + from11;
    let parts10 = seq!["/dict>\n"@] + parts11;
    assert(parts10.drop_first() =~= parts11);
    assert(text::separated(parts10, '<') == from10);
    let from9 = "/string>\n"@ + seq!['<'] + from10;
    let parts9 = seq!["/string>\n"@] + parts10;
    assert(parts9.drop_first() =~= parts10);
    assert(text::separated(parts9, '<') == from9);
    let from8 = "string>Aqua"@ + seq!['<'] + from9;
    let parts8 = seq!["string>Aqua"@] + parts9;
    assert(parts8.drop_first() =~= parts9);
    assert(text::separated(parts8, '<') == from8);
    let from7 = "/key>\n\t"@ + seq!['<'] + from8;
    let parts7 = seq!["/key>\n\t"@] + parts8;
    assert(parts7.drop_first() =~= parts8);
    assert(text::separated(parts7, '<') == from7);
    let from6 = "key>LimitLoadToSessionType"@ + seq!['<'] + from7;
    let parts6 = seq!["key>LimitLoadToSessionType"@] + parts7;
    assert(parts6.drop_first() =~= parts7);
    assert(text::separated(parts6, '<') == from6);
    let from5 = "true/>\n\t"@ + seq!['<'] + from6;
    let parts5 = seq!["true/>\n\t"@] + parts6;
    assert(parts5.drop_first() =~= parts6);
    assert(text::separated(parts5, '<') == from5);
    let from4 = "/key>\n\t"@ + seq!['<'] + from5;
    let parts4 = seq!["/key>\n\t"@] + parts5;
    assert(parts4.drop_first() =~= parts5);
    assert(text::separated(parts4, '<') == from4);
    let from3 = "key>RunAtLoad"@ + seq!['<'] + from4;
    let parts3 = seq!["key>RunAtLoad"@] + parts4;
    assert(parts3.drop_first() =~= parts4);
    assert(text::separated(parts3, '<') == from3);
    let from2 = "/array>\n\t"@ + seq!['<'] + from3;
    let parts2 = seq!["/array>\n\t"@] + parts3;
    assert(parts2.drop_first() =~= parts3);
    assert(text::separated(parts2, '<') == from2);
    let from1 = "/string>\n\t"@ + seq!['<'] + from2;
    let parts1 = seq!["/string>\n\t"@] + parts2;
    assert(parts1.drop_first() =~= parts2);
    assert(text::separated(parts1, '<') == from1);
    let from0 = Seq::<char>::empty() + seq!['<'] + from1;
    let parts0 = seq![Seq::<char>::empty()] + parts1;
    assert(parts0.drop_first() =~= parts1);
    assert(text::separated(parts0, '<') == from0);
    assert(parts =~= parts0);
    assert("</string>\n\t</array>\n\t<key>RunAtLoad</key>\n\t<true/>\n\t<key>LimitLoadToSessionType</key>\n\t<string>Aqua</string>\n</dict>\n</plist>\n"@ =~= from0);
    assert forall|i: int| 0 <= i < 12 implies text::lacks(#[trigger] parts[i], '<') by {
        assert(i == 0 || i == 1 || i == 2 || i == 3 || i == 4 || i == 5 || i == 6 || i == 7 || i == 8 || i == 9 || i == 10 || i == 11);
    }
}

/// The pieces of a document between the openings of its tags: each is a tag without
/// its opening, and the text behind it.
pub open spec fn tags(doc: Seq<char>) -> Seq<Seq<char>> {
    text::pieces(doc, '<')
}

/// Read tag by tag, a generated document is one dictionary of four keys and no other:
/// the label, one program argument that stands for the executable, started at load,
/// and limited to a graphical session.
pub proof fn law_plist_has_exactly_these_tags(exe: Seq<char>)
    ensures
        ({
            let read = tags(plist_for(exe));
            &&& read.len() == 24
            &&& read[0] == Seq::<char>::empty()
            &&& read[1] == "?xml version=\"1.0\" encoding=\"UTF-8\"?>\n"@
            &&& read[2]
                == "!DOCTYPE plist PUBLIC \"-//Apple//DTD PLIST 1.0//EN\" \"http://www.apple.com/DTDs/PropertyList-1.0.dtd\">\n"@
            &&& read[3] == "plist version=\"1.0\">\n"@
            &&& read[4] == "dict>\n\t"@
            &&& read[5] == "key>Label"@ && read[6] == "/key>\n\t"@
            &&& read[7] == "string>io.github.itabajah.duja"@ && read[8] == "/string>\n\t"@
            &&& read[9] == "key>ProgramArguments"@ && read[10] == "/key>\n\t"@
            &&& read[11] == "array>\n\t\t"@
            &&& "string>"@.is_prefix_of(read[12])
            &&& xml_unescaped(read[12].skip("string>"@.len() as int)) == exe
            &&& read[13] == "/string>\n\t"@ && read[14] == "/array>\n\t"@
            &&& read[15] == "key>RunAtLoad"@ && read[16] == "/key>\n\t"@
            &&& read[17] == "true/>\n\t"@
            &&& read[18] == "key>LimitLoadToSessionType"@ && read[19] == "/key>\n\t"@
            &&& read[20] == "string>Aqua"@ && read[21] == "/string>\n"@
            &&& read[22] == "/dict>\n"@ && read[23] == "/plist>\n"@
        }),
{
    let body = seq![xml_escaped(exe)];
    lemma_head_in_tags();
    lemma_arguments_in_tags();
    lemma_tail_in_tags();
    law_escaped_text_has_no_markup(exe);
    law_unescape_undoes_escape(exe);
    let two = text::merged(head_tags(), arguments_tags());
    text::lemma_separated_merges(head_tags(), arguments_tags(), '<');
    text::lemma_merged_lacks(head_tags(), arguments_tags(), '<');
    let three = text::merged(two, body);
    text::lemma_separated_merges(two, body, '<');
    text::lemma_merged_lacks(two, body, '<');
    let four = text::merged(three, tail_tags());
    text::lemma_separated_merges(three, tail_tags(), '<');
    text::lemma_merged_lacks(three, tail_tags(), '<');
    assert(text::separated(body, '<') == xml_escaped(exe));
    text::lemma_separated_reads_back(four, '<');
    let read = tags(plist_for(exe));
    assert(read == four);
    assert(two[8] == "/string>\n\t"@) by {
        reveal_strlit("/string>\n");
        reveal_strlit("\t");
        reveal_strlit("/string>\n\t");
        assert("/string>\n"@ + "\t"@ =~= "/string>\n\t"@);
    }
    assert(two.len() == 13);
    assert(two.last() == "string>"@);
    assert(three.len() == 13);
    assert(three.last() == "string>"@ + xml_escaped(exe));
    assert(four[12] =~= "string>"@ + xml_escaped(exe));
    assert(four[12].take("string>"@.len() as int) =~= "string>"@);
    assert(four[12].skip("string>"@.len() as int) =~= xml_escaped(exe));
    assert forall|i: int| 0 <= i < 12 implies four[i] == #[trigger] two[i] by {
        assert(four[i] == three[i]);
        assert(three[i] == two[i]);
    }
    assert(two[0] == head_tags()[0] && two[1] == head_tags()[1] && two[2] == head_tags()[2]);
    assert(two[3] == head_tags()[3] && two[4] == head_tags()[4] && two[5] == head_tags()[5]);
    assert(two[6] == head_tags()[6] && two[7] == head_tags()[7]);
    assert(two[9] == arguments_tags()[1] && two[10] == arguments_tags()[2] && two[11]
        == arguments_tags()[3]);
    assert forall|i: int| 1 <= i < 12 implies four[i + 12] == #[trigger] tail_tags()[i] by {}
    assert(four[13] == tail_tags()[1] && four[14] == tail_tags()[2] && four[15] == tail_tags()[3]);
    assert(four[16] == tail_tags()[4] && four[17] == tail_tags()[5] && four[18] == tail_tags()[6]);
    assert(four[19] == tail_tags()[7] && four[20] == tail_tags()[8] && four[21] == tail_tags()[9]);
    assert(four[22] == tail_tags()[10] && four[23] == tail_tags()[11]);
}

/// Escaping goes character by character: two texts in a row are escaped as each
/// alone.
pub proof fn law_escaping_goes_character_by_character(a: Seq<char>, b: Seq<char>)
    ensures
        xml_escaped(a + b) == xml_escaped(a) + xml_escaped(b),
    decreases b.len(),
{
    if b.len() == 0 {
        assert(a + b =~= a);
        assert(xml_escaped(a) + xml_escaped(b) =~= xml_escaped(a));
    } else {
        law_escaping_goes_character_by_character(a, b.drop_last());
        assert((a + b).drop_last() =~= a + b.drop_last());
        assert(xml_escaped(a + b) =~= xml_escaped(a) + xml_escaped(b));
    }
}

/// What each character becomes: the three that element text cannot hold as they are
/// become their entities, and every other stands for itself.
pub proof fn law_each_character_is_escaped_so(c: char)
    ensures
        c == '&' ==> xml_escaped(seq![c]) == "&amp;"@,
        c == '<' ==> xml_escaped(seq![c]) == "&lt;"@,
        c == '>' ==> xml_escaped(seq![c]) == "&gt;"@,
        c != '&' && c != '<' && c != '>' ==> xml_escaped(seq![c]) == seq![c],
{
    reveal_strlit("&amp;");
    reveal_strlit("&lt;");
    reveal_strlit("&gt;");
    let one = seq![c];
    assert(one.drop_last() =~= Seq::<char>::empty());
    assert(xml_escaped(Seq::<char>::empty()) =~= Seq::<char>::empty());
    assert(xml_escaped(one) =~= escaped_char(c));
}

proof fn lemma_nothing_to_replace(s: Seq<char>, from: Seq<char>, to: Seq<char>)
    requires
        forall|at: int| !text::occurs_at(s, from, at),
    ensures
        replaced(s, from, to) == s,
    decreases s.len(),
{
    if s.len() > 0 && from.len() > 0 {
        let rest = s.drop_first();
        assert(!text::occurs_at(s, from, 0));
        assert forall|at: int| !text::occurs_at(rest, from, at) by {
            if text::occurs_at(rest, from, at) {
                assert(s.subrange(at + 1, at + 1 + from.len()) =~= rest.subrange(
                    at,
                    at + from.len(),
                ));
                assert(text::occurs_at(s, from, at + 1));
            }
        }
        lemma_nothing_to_replace(rest, from, to);
        assert(seq![s[0]] + rest =~= s);
    }
}

/// Only the three entities that escaping writes are undone: a text without them is
/// left as it is, whatever other references it holds.
pub proof fn law_other_references_are_left_alone(s: Seq<char>)
    requires
        forall|at: int| !text::occurs_at(s, "&lt;"@, at),
        forall|at: int| !text::occurs_at(s, "&gt;"@, at),
        forall|at: int| !text::occurs_at(s, "&amp;"@, at),
    ensures
        xml_unescaped(s) == s,
{
    reveal_strlit("&amp;");
    reveal_strlit("&lt;");
    reveal_strlit("&gt;");
    assert("&lt;"@ =~= seq!['&', 'l', 't', ';']);
    assert("&gt;"@ =~= seq!['&', 'g', 't', ';']);
    assert("&amp;"@ =~= seq!['&', 'a', 'm', 'p', ';']);
    lemma_nothing_to_replace(s, "&lt;"@, seq!['<']);
    lemma_nothing_to_replace(s, "&gt;"@, seq!['>']);
    lemma_nothing_to_replace(s, "&amp;"@, seq!['&']);
}

proof fn lemma_replaced_one_step(s: Seq<char>, from: Seq<char>, to: Seq<char>)
    requires
        s.len() > 0,
        from.len() > 0,
        !text::occurs_at(s, from, 0),
    ensures
        replaced(s, from, to) == seq![s[0]] + replaced(s.drop_first(), from, to),
{
}

/// What replacing leaves at the front, other than what it put there, was there before.
proof fn lemma_front_was_there(s: Seq<char>, from: Seq<char>, to: char, front: Seq<char>)
    requires
        from.len() > 0,
        front.is_prefix_of(replaced(s, from, seq![to])),
        text::lacks(front, to),
    ensures
        front.is_prefix_of(s),
    decreases front.len(),
{
    if front.len() > 0 {
        let out = replaced(s, from, seq![to]);
        assert(out[0] == front[0]);
        assert(s.len() > 0);
        assert(!text::occurs_at(s, from, 0)) by {
            if text::occurs_at(s, from, 0) {
                assert(out[0] == to);
            }
        }
        lemma_replaced_one_step(s, from, seq![to]);
        let rest = replaced(s.drop_first(), from, seq![to]);
        let tail = front.drop_first();
        assert(out.drop_first() =~= rest);
        assert(tail =~= out.take(front.len() as int).drop_first());
        assert(rest.take(tail.len() as int) =~= tail);
        assert forall|k: int| 0 <= k < tail.len() implies tail[k] != to by {
            assert(tail[k] == front[k + 1]);
        }
        lemma_front_was_there(s.drop_first(), from, to, tail);
        assert forall|k: int| 0 <= k < front.len() implies s[k] == front[k] by {
            if k > 0 {
                assert(s.drop_first()[k - 1] == tail[k - 1]);
            }
        }
        assert(s.take(front.len() as int) =~= front);
    }
}

/// A match that begins with the first character of `seq![c] + s` continues in `s`.
proof fn lemma_match_continues(c: char, s: Seq<char>, needle: Seq<char>)
    requires
        needle.len() > 0,
        needle[0] == c,
    ensures
        text::occurs_at(seq![c] + s, needle, 0) <==> needle.drop_first().is_prefix_of(s),
{
    let whole = seq![c] + s;
    let tail = needle.drop_first();
    if text::occurs_at(whole, needle, 0) {
        assert(tail =~= whole.subrange(0, needle.len() as int).drop_first());
        assert(s.take(tail.len() as int) =~= tail);
    }
    if tail.is_prefix_of(s) {
        assert forall|k: int| 0 <= k < needle.len() implies whole[k] == needle[k] by {
            if k > 0 {
                assert(s[k - 1] == tail[k - 1]);
            }
        }
        assert(whole.subrange(0, needle.len() as int) =~= needle);
    }
}

/// Unescaping reads from the left, once: each of the three entities becomes its
/// character and is not looked at again, and every other character, an ampersand that
/// begins none of them too, stands for itself.
pub proof fn law_entities_are_undone_from_the_left(c: char, rest: Seq<char>)
    ensures
        xml_unescaped(Seq::empty()) == Seq::<char>::empty(),
        xml_unescaped("&lt;"@ + rest) == seq!['<'] + xml_unescaped(rest),
        xml_unescaped("&gt;"@ + rest) == seq!['>'] + xml_unescaped(rest),
        xml_unescaped("&amp;"@ + rest) == seq!['&'] + xml_unescaped(rest),
        c != '&' ==> xml_unescaped(seq![c] + rest) == seq![c] + xml_unescaped(rest),
        !("lt;"@.is_prefix_of(rest) || "gt;"@.is_prefix_of(rest) || "amp;"@.is_prefix_of(rest))
            ==> xml_unescaped(seq!['&'] + rest) == seq!['&'] + xml_unescaped(rest),
{
    let lt = seq!['&', 'l', 't', ';'];
    let gt = seq!['&', 'g', 't', ';'];
    let amp = seq!['&', 'a', 'm', 'p', ';'];
    let less = seq!['<'];
    let greater = seq!['>'];
    let and = seq!['&'];
    reveal_strlit("&lt;");
    reveal_strlit("&gt;");
    reveal_strlit("&amp;");
    reveal_strlit("lt;");
    reveal_strlit("gt;");
    reveal_strlit("amp;");
    assert("&lt;"@ =~= lt && "&gt;"@ =~= gt && "&amp;"@ =~= amp);
    assert(lt.drop_first() =~= "lt;"@);
    assert(gt.drop_first() =~= "gt;"@);
    assert(amp.drop_first() =~= "amp;"@);
    let once = replaced(rest, lt, less);
    let twice = replaced(once, gt, greater);
    // An opened `<`.
    lemma_replaced_takes(rest, lt, less);
    lemma_replaced_steps_over(less, once, gt, greater);
    lemma_replaced_steps_over(less, twice, amp, and);
    // An opened `>`.
    lemma_replaced_steps_over(gt, rest, lt, less);
    lemma_replaced_takes(once, gt, greater);
    lemma_replaced_steps_over(greater, twice, amp, and);
    // An opened ampersand.
    lemma_replaced_steps_over(amp, rest, lt, less);
    lemma_replaced_steps_over(amp, once, gt, greater);
    lemma_replaced_takes(twice, amp, and);
    // A plain character.
    if c != '&' {
        lemma_replaced_steps_over(seq![c], rest, lt, less);
        lemma_replaced_steps_over(seq![c], once, gt, greater);
        lemma_replaced_steps_over(seq![c], twice, amp, and);
    }
    // An ampersand that opens nothing.
    if !("lt;"@.is_prefix_of(rest) || "gt;"@.is_prefix_of(rest) || "amp;"@.is_prefix_of(rest)) {
        lemma_match_continues('&', rest, lt);
        lemma_replaced_one_step(and + rest, lt, less);
        assert((and + rest).drop_first() =~= rest);
        lemma_match_continues('&', once, gt);
        if "gt;"@.is_prefix_of(once) {
            assert(text::lacks("gt;"@, '<'));
            lemma_front_was_there(rest, lt, '<', "gt;"@);
        }
        lemma_replaced_one_step(and + once, gt, greater);
        assert((and + once).drop_first() =~= once);
        lemma_match_continues('&', twice, amp);
        if "amp;"@.is_prefix_of(twice) {
            assert(text::lacks("amp;"@, '>') && text::lacks("amp;"@, '<'));
            lemma_front_was_there(once, gt, '>', "amp;"@);
            lemma_front_was_there(rest, lt, '<', "amp;"@);
        }
        lemma_replaced_one_step(and + twice, amp, and);
        assert((and + twice).drop_first() =~= twice);
    }
}

/// The program of a document is the text of the first string element in the first
/// array after the first `ProgramArguments` key, whatever else the document holds.
pub proof fn law_program_is_the_first_string_after_its_key(
    doc: Seq<char>,
    key: int,
    array: int,
    open: int,
    close: int,
)
    requires
        text::occurs_at(doc, "<key>ProgramArguments</key>"@, key),
        forall|j: int| 0 <= j < key ==> !text::occurs_at(doc, "<key>ProgramArguments</key>"@, j),
        key <= array,
        text::occurs_at(doc, "<array>"@, array),
        forall|j: int| key <= j < array ==> !text::occurs_at(doc, "<array>"@, j),
        array <= open,
        text::occurs_at(doc, "<string>"@, open),
        forall|j: int| array <= j < open ==> !text::occurs_at(doc, "<string>"@, j),
        open + "<string>"@.len() <= close,
        text::occurs_at(doc, "</string>"@, close),
        forall|j: int|
            open + "<string>"@.len() <= j < close ==> !text::occurs_at(doc, "</string>"@, j),
    ensures
        program_argument0(doc) == Some(
            xml_unescaped(doc.subrange(open + "<string>"@.len(), close)),
        ),
{
    reveal_strlit("<string>");
    text::lemma_first_occurrence_unique(doc, "<key>ProgramArguments</key>"@, 0, key);
    text::lemma_first_occurrence_unique(doc, "<array>"@, key, array);
    text::lemma_first_occurrence_unique(doc, "<string>"@, array, open);
    text::lemma_first_occurrence_unique(doc, "</string>"@, open + 8, close);
}

/// A document has no program exactly when it lacks the key, an array after it, a
/// string after that, or the string's end.
pub proof fn law_no_program_without_its_tags(doc: Seq<char>)
    ensures
        program_argument0(doc) is None <==> !(exists|key: int, array: int, open: int, close: int|
            {
                &&& 0 <= key <= array <= open
                &&& open + "<string>"@.len() <= close
                &&& #[trigger] text::occurs_at(doc, "<key>ProgramArguments</key>"@, key)
                &&& #[trigger] text::occurs_at(doc, "<array>"@, array)
                &&& #[trigger] text::occurs_at(doc, "<string>"@, open)
                &&& #[trigger] text::occurs_at(doc, "</string>"@, close)
            }),
{
    reveal_strlit("<string>");
    text::lemma_first_occurrence(doc, "<key>ProgramArguments</key>"@, 0);
    if let Some(key) = text::first_occurrence(doc, "<key>ProgramArguments</key>"@, 0) {
        text::lemma_first_occurrence(doc, "<array>"@, key);
        if let Some(array) = text::first_occurrence(doc, "<array>"@, key) {
            text::lemma_first_occurrence(doc, "<string>"@, array);
            if let Some(open) = text::first_occurrence(doc, "<string>"@, array) {
                text::lemma_first_occurrence(doc, "</string>"@, open + 8);
            }
        }
    }
}

} // verus!
