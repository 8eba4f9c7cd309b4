//! Text as sequences of characters: searching, trimming, ASCII folding and
//! decimal numbers.
//!
//! Strings are viewed as `Seq<char>` throughout. The executable functions work
//! on character slices, which index in constant time where a `str` does not.

use vstd::prelude::*;
use vstd::slice::slice_subrange;

verus! {

/// `std::string::String::push` appends one character at the end.
pub assume_specification[ String::push ](s: &mut String, ch: char)
    ensures
        final(s)@ == old(s)@.push(ch),
;

// -- Between strings and character vectors --------------------------------

/// The characters of `s`, in order.
pub fn chars_of(s: &str) -> (chars: Vec<char>)
    ensures
        chars@ == s@,
{
    let mut chars: Vec<char> = Vec::new();
    for c in it: s.chars()
        invariant
            it.seq() == s@,
            chars@ == it.seq().take(it.index()),
    {
        chars.push(c);
        assert(it.seq().take(it.index() + 1) == it.seq().take(it.index()).push(c));
    }
    assert(s@.take(s@.len() as int) == s@);
    chars
}

/// Append `chars` to `out`.
pub fn push_chars(out: &mut String, chars: &[char])
    ensures
        final(out)@ == old(out)@ + chars@,
{
    let mut i: usize = 0;
    while i < chars.len()
        invariant
            i <= chars.len(),
            out@ == old(out)@ + chars@.take(i as int),
        decreases chars.len() - i,
    {
        out.push(chars[i]);
        assert(chars@.take(i + 1) == chars@.take(i as int).push(chars@[i as int]));
        i += 1;
    }
    assert(chars@.take(chars@.len() as int) == chars@);
}

/// The string whose characters are `chars`.
pub fn string_of(chars: &[char]) -> (out: String)
    ensures
        out@ == chars@,
{
    let mut out: String = String::new();
    push_chars(&mut out, chars);
    assert(Seq::<char>::empty() + chars@ == chars@);
    out
}

/// Two texts in a row.
pub fn join2(a: &str, b: &str) -> (whole: String)
    ensures
        whole@ == a@ + b@,
{
    let mut whole: String = a.to_owned();
    whole.append(b);
    whole
}

/// Three texts in a row.
pub fn join3(a: &str, b: &str, c: &str) -> (whole: String)
    ensures
        whole@ == a@ + b@ + c@,
{
    let mut whole: String = a.to_owned();
    whole.append(b);
    whole.append(c);
    whole
}

/// Whether two character slices hold the same text.
pub fn same_chars(a: &[char], b: &[char]) -> (same: bool)
    ensures
        same == (a@ == b@),
{
    if a.len() != b.len() {
        return false;
    }
    let mut i: usize = 0;
    while i < a.len()
        invariant
            a.len() == b.len(),
            i <= a.len(),
            forall|j: int| 0 <= j < i ==> a@[j] == b@[j],
        decreases a.len() - i,
    {
        if a[i] != b[i] {
            assert(a@[i as int] != b@[i as int]);
            return false;
        }
        i += 1;
    }
    assert(a@ =~= b@);
    true
}

// -- Whitespace -----------------------------------------------------------

/// Unicode's `White_Space` property.
pub open spec fn is_white_space(c: char) -> bool {
    let u = c as u32;
    ||| 0x09 <= u <= 0x0d
    ||| u == 0x20
    ||| u == 0x85
    ||| u == 0xa0
    ||| u == 0x1680
    ||| 0x2000 <= u <= 0x200a
    ||| u == 0x2028
    ||| u == 0x2029
    ||| u == 0x202f
    ||| u == 0x205f
    ||| u == 0x3000
}

/// Whether `c` is white space.
pub fn white_space(c: char) -> (yes: bool)
    ensures
        yes == is_white_space(c),
{
    let u: u32 = c as u32;
    (0x09 <= u && u <= 0x0d) || u == 0x20 || u == 0x85 || u == 0xa0 || u == 0x1680 || (0x2000 <= u
        && u <= 0x200a) || u == 0x2028 || u == 0x2029 || u == 0x202f || u == 0x205f || u == 0x3000
}

/// Whether a text is white space throughout.
pub open spec fn is_blank(s: Seq<char>) -> bool {
    forall|i: int| 0 <= i < s.len() ==> is_white_space(#[trigger] s[i])
}

/// `s` without the white space at its two ends.
pub open spec fn trimmed(s: Seq<char>) -> Seq<char>
    decreases s.len(),
{
    if s.len() == 0 {
        s
    } else if is_white_space(s.first()) {
        trimmed(s.drop_first())
    } else if is_white_space(s.last()) {
        trimmed(s.drop_last())
    } else {
        s
    }
}

/// The part of `chars` between its leading and trailing white space.
pub fn trim(chars: &[char]) -> (inner: &[char])
    ensures
        inner@ == trimmed(chars@),
{
    let mut lo: usize = 0;
    let mut hi: usize = chars.len();
    assert(chars@.subrange(0, chars@.len() as int) == chars@);
    while lo < hi && white_space(chars[lo])
        invariant
            lo <= hi,
            hi == chars.len(),
            trimmed(chars@.subrange(lo as int, hi as int)) == trimmed(chars@),
        decreases hi - lo,
    {
        assert(chars@.subrange(lo as int, hi as int).drop_first() == chars@.subrange(
            lo + 1,
            hi as int,
        ));
        lo += 1;
    }
    while lo < hi && white_space(chars[hi - 1])
        invariant
            lo <= hi <= chars.len(),
            lo < hi ==> !is_white_space(chars@[lo as int]),
            trimmed(chars@.subrange(lo as int, hi as int)) == trimmed(chars@),
        decreases hi - lo,
    {
        assert(chars@.subrange(lo as int, hi as int).drop_last() == chars@.subrange(
            lo as int,
            hi - 1,
        ));
        assert(chars@.subrange(lo as int, hi as int).last() == chars@[hi - 1]);
        assert(chars@.subrange(lo as int, hi as int).first() == chars@[lo as int]);
        hi -= 1;
    }
    proof {
        let inner = chars@.subrange(lo as int, hi as int);
        if inner.len() > 0 {
            assert(inner.first() == chars@[lo as int]);
            assert(inner.last() == chars@[hi - 1]);
        }
    }
    slice_subrange(chars, lo, hi)
}

/// White space is the tab, the line feed and the three controls after it, the
/// space, the next-line control, the no-break space, the Ogham space, the eleven
/// spaces of the general punctuation block, the line and the paragraph separator,
/// the narrow no-break space, the medium mathematical space and the ideographic
/// space: twenty-five characters.
pub proof fn law_white_space_is_these_characters(c: char)
    ensures
        is_white_space(c) <==> {
            let u = c as int;
            ||| u == 9 || u == 10 || u == 11 || u == 12 || u == 13
            ||| u == 32 || u == 133 || u == 160 || u == 5760
            ||| u == 8192 || u == 8193 || u == 8194 || u == 8195 || u == 8196 || u == 8197
            ||| u == 8198 || u == 8199 || u == 8200 || u == 8201 || u == 8202
            ||| u == 8232 || u == 8233 || u == 8239 || u == 8287 || u == 12288
        },
{
}

/// Trimming takes off white space at the two ends and nothing else: what is left
/// has none at its ends, and stands between two runs of it.
pub proof fn law_trimming_leaves_the_inside(s: Seq<char>) -> (sides: (Seq<char>, Seq<char>))
    ensures
        s == sides.0 + trimmed(s) + sides.1,
        is_blank(sides.0),
        is_blank(sides.1),
        trimmed(s).len() > 0 ==> !is_white_space(trimmed(s).first()) && !is_white_space(
            trimmed(s).last(),
        ),
    decreases s.len(),
{
    if s.len() == 0 {
        (Seq::empty(), Seq::empty())
    } else if is_white_space(s.first()) {
        let (before, after) = law_trimming_leaves_the_inside(s.drop_first());
        assert(seq![s.first()] + s.drop_first() =~= s);
        assert(s =~= (seq![s.first()] + before) + trimmed(s) + after);
        (seq![s.first()] + before, after)
    } else if is_white_space(s.last()) {
        let (before, after) = law_trimming_leaves_the_inside(s.drop_last());
        assert(s.drop_last().push(s.last()) =~= s);
        assert(s =~= before + trimmed(s) + after.push(s.last()));
        (before, after.push(s.last()))
    } else {
        assert(s =~= Seq::<char>::empty() + s + Seq::<char>::empty());
        (Seq::empty(), Seq::empty())
    }
}

/// A text that has no white space at its ends is what trimming gives back of it
/// between any two runs of white space.
pub proof fn law_padding_is_trimmed_off(before: Seq<char>, inside: Seq<char>, after: Seq<char>)
    requires
        is_blank(before),
        is_blank(after),
        inside.len() > 0 ==> !is_white_space(inside.first()) && !is_white_space(inside.last()),
    ensures
        trimmed(before + inside + after) == inside,
    decreases before.len() + after.len(),
{
    let s = before + inside + after;
    if before.len() > 0 {
        assert(s.first() == before[0]);
        assert(s.drop_first() =~= before.drop_first() + inside + after);
        law_padding_is_trimmed_off(before.drop_first(), inside, after);
    } else if after.len() > 0 {
        if inside.len() > 0 {
            assert(s.first() == inside.first());
            assert(s.last() == after.last());
            assert(s.drop_last() =~= before + inside + after.drop_last());
            law_padding_is_trimmed_off(before, inside, after.drop_last());
        } else {
            assert(s.first() == after[0]);
            assert(s.drop_first() =~= before + inside + after.drop_first());
            law_padding_is_trimmed_off(before, inside, after.drop_first());
        }
    } else {
        assert(s =~= inside);
    }
}

// -- ASCII case -----------------------------------------------------------

/// The code of `c`, with an ASCII capital folded to its small letter.
pub open spec fn ascii_folded(c: char) -> u32 {
    if 'A' <= c <= 'Z' {
        (c as u32 + 32) as u32
    } else {
        c as u32
    }
}

/// Whether `a` and `b` differ at most in the case of ASCII letters.
pub open spec fn same_ignoring_ascii_case(a: Seq<char>, b: Seq<char>) -> bool {
    &&& a.len() == b.len()
    &&& forall|i: int| 0 <= i < a.len() ==> ascii_folded(#[trigger] a[i]) == ascii_folded(b[i])
}

/// A character matches an ASCII letter, case aside, exactly when it is that letter
/// or its other case.
pub proof fn law_ascii_letters_match_in_either_case(c: char, small: char, capital: char)
    requires
        'a' <= small <= 'z',
        'A' <= capital <= 'Z',
        small as u32 == capital as u32 + 32,
    ensures
        ascii_folded(c) == ascii_folded(small) <==> c == small || c == capital,
        ascii_folded(c) == ascii_folded(capital) <==> c == small || c == capital,
{
}

/// Outside the ASCII letters nothing is folded: such a character matches itself
/// alone.
pub proof fn law_other_characters_match_themselves(c: char, other: char)
    requires
        !('a' <= other <= 'z'),
        !('A' <= other <= 'Z'),
    ensures
        ascii_folded(c) == ascii_folded(other) <==> c == other,
{
}

fn fold_ascii(c: char) -> (code: u32)
    ensures
        code == ascii_folded(c),
{
    if 'A' <= c && c <= 'Z' {
        c as u32 + 32
    } else {
        c as u32
    }
}

/// Whether two character slices differ at most in the case of ASCII letters.
pub fn eq_ignore_ascii_case(a: &[char], b: &[char]) -> (same: bool)
    ensures
        same == same_ignoring_ascii_case(a@, b@),
{
    if a.len() != b.len() {
        return false;
    }
    let mut i: usize = 0;
    while i < a.len()
        invariant
            a.len() == b.len(),
            i <= a.len(),
            forall|j: int|
                0 <= j < i ==> ascii_folded(#[trigger] a@[j]) == ascii_folded(b@[j]),
        decreases a.len() - i,
    {
        if fold_ascii(a[i]) != fold_ascii(b[i]) {
            assert(ascii_folded(a@[i as int]) != ascii_folded(b@[i as int]));
            return false;
        }
        i += 1;
    }
    true
}

// -- Searching ------------------------------------------------------------

/// Whether `needle` stands in `hay` at position `at`.
pub open spec fn occurs_at(hay: Seq<char>, needle: Seq<char>, at: int) -> bool {
    &&& 0 <= at
    &&& at + needle.len() <= hay.len()
    &&& hay.subrange(at, at + needle.len()) == needle
}

/// The first position at or after `from` where `needle` stands in `hay`.
pub open spec fn first_occurrence(hay: Seq<char>, needle: Seq<char>, from: int) -> Option<int>
    decreases hay.len() + 1 - from,
{
    if from < 0 || from + needle.len() > hay.len() {
        None
    } else if occurs_at(hay, needle, from) {
        Some(from)
    } else {
        first_occurrence(hay, needle, from + 1)
    }
}

/// `first_occurrence` is what its name says: nothing earlier matches.
pub proof fn lemma_first_occurrence(hay: Seq<char>, needle: Seq<char>, from: int)
    requires
        0 <= from,
    ensures
        match first_occurrence(hay, needle, from) {
            Some(at) => {
                &&& from <= at
                &&& occurs_at(hay, needle, at)
                &&& forall|j: int| from <= j < at ==> !occurs_at(hay, needle, j)
            },
            None => forall|j: int| from <= j ==> !occurs_at(hay, needle, j),
        },
    decreases hay.len() + 1 - from,
{
    if from + needle.len() <= hay.len() && !occurs_at(hay, needle, from) {
        lemma_first_occurrence(hay, needle, from + 1);
    }
}

/// The one position that matches with nothing earlier matching is the first
/// occurrence.
pub proof fn lemma_first_occurrence_unique(
    hay: Seq<char>,
    needle: Seq<char>,
    from: int,
    at: int,
)
    requires
        0 <= from <= at,
        occurs_at(hay, needle, at),
        forall|j: int| from <= j < at ==> !occurs_at(hay, needle, j),
    ensures
        first_occurrence(hay, needle, from) == Some(at),
{
    lemma_first_occurrence(hay, needle, from);
}

fn matches_at(hay: &[char], needle: &[char], at: usize) -> (yes: bool)
    requires
        at + needle.len() <= hay.len(),
    ensures
        yes == occurs_at(hay@, needle@, at as int),
{
    same_chars(slice_subrange(hay, at, at + needle.len()), needle)
}

/// Find the first place at or after `from` where `needle` stands in `hay`.
pub fn find(hay: &[char], needle: &[char], from: usize) -> (at: Option<usize>)
    ensures
        match at {
            Some(i) => first_occurrence(hay@, needle@, from as int) == Some(i as int),
            None => first_occurrence(hay@, needle@, from as int) is None,
        },
{
    if needle.len() > hay.len() {
        return None;
    }
    let last: usize = hay.len() - needle.len();
    let mut i: usize = from;
    while i <= last
        invariant
            last + needle.len() == hay.len(),
            first_occurrence(hay@, needle@, from as int) == first_occurrence(
                hay@,
                needle@,
                i as int,
            ),
        decreases last + 1 - i,
    {
        if matches_at(hay, needle, i) {
            return Some(i);
        }
        if i == last {
            return None;
        }
        i += 1;
    }
    None
}

/// Whether `chars` begins with `prefix`.
pub fn starts_with(chars: &[char], prefix: &[char]) -> (yes: bool)
    ensures
        yes == prefix@.is_prefix_of(chars@),
{
    if prefix.len() > chars.len() {
        return false;
    }
    same_chars(slice_subrange(chars, 0, prefix.len()), prefix)
}

/// A text is found exactly where it stands: after everything before it, and before
/// everything after it.
pub proof fn law_found_where_it_stands(hay: Seq<char>, needle: Seq<char>, at: int)
    ensures
        0 <= at && at + needle.len() <= hay.len() ==> (occurs_at(hay, needle, at) <==> hay
            == hay.take(at) + needle + hay.skip(at + needle.len())),
        occurs_at(hay, needle, at) ==> 0 <= at && at + needle.len() <= hay.len(),
{
    if 0 <= at && at + needle.len() <= hay.len() {
        let whole = hay.take(at) + needle + hay.skip(at + needle.len());
        if occurs_at(hay, needle, at) {
            assert(hay =~= hay.take(at) + hay.subrange(at, at + needle.len()) + hay.skip(
                at + needle.len(),
            ));
        }
        if hay == whole {
            assert(whole.subrange(at, at + needle.len()) =~= needle);
        }
    }
}

// -- Reading a text piece by piece ------------------------------------------

/// Whether `c` does not occur in `s` from `at` on.
pub open spec fn free_from(s: Seq<char>, c: char, at: int) -> bool
    decreases s.len() - at,
{
    at < 0 || at >= s.len() || (s[at] != c && free_from(s, c, at + 1))
}

/// Whether `c` does not occur in `s`.
pub open spec fn lacks(s: Seq<char>, c: char) -> bool {
    forall|k: int| 0 <= k < s.len() ==> s[k] != c
}

/// `free_from` means what it says.
pub proof fn lemma_free_from(s: Seq<char>, c: char, at: int)
    requires
        free_from(s, c, at),
        0 <= at,
    ensures
        forall|k: int| at <= k < s.len() ==> s[k] != c,
    decreases s.len() - at,
{
    if at < s.len() {
        lemma_free_from(s, c, at + 1);
    }
}

/// The first position at or after `from` where `c` stands in `s`, or the length.
pub open spec fn next_at(s: Seq<char>, c: char, from: int) -> int
    decreases s.len() - from,
{
    if from < 0 || from >= s.len() || s[from] == c {
        from
    } else {
        next_at(s, c, from + 1)
    }
}

proof fn lemma_next_at(s: Seq<char>, c: char, from: int, at: int)
    requires
        0 <= from <= at <= s.len(),
        forall|k: int| from <= k < at ==> s[k] != c,
        at < s.len() ==> s[at] == c,
    ensures
        next_at(s, c, from) == at,
    decreases at - from,
{
    if from < at {
        lemma_next_at(s, c, from + 1, at);
    }
}

/// What stands between the separators of a text.
#[verifier::opaque]
pub open spec fn pieces(s: Seq<char>, separator: char) -> Seq<Seq<char>>
    decreases s.len(),
{
    let k = next_at(s, separator, 0);
    if 0 <= k < s.len() {
        seq![s.take(k)] + pieces(s.skip(k + 1), separator)
    } else {
        seq![s]
    }
}

/// A text without separators is one piece.
pub proof fn lemma_one_piece(s: Seq<char>, separator: char)
    requires
        lacks(s, separator),
    ensures
        pieces(s, separator) == seq![s],
{
    reveal(pieces);
    lemma_next_at(s, separator, 0, s.len() as int);
}

/// The first piece ends at the first separator.
pub proof fn lemma_first_piece(first: Seq<char>, rest: Seq<char>, separator: char)
    requires
        lacks(first, separator),
    ensures
        pieces(first + seq![separator] + rest, separator) == seq![first] + pieces(rest, separator),
{
    reveal(pieces);
    let s = first + seq![separator] + rest;
    let n = first.len() as int;
    assert(s[n] == separator);
    assert forall|j: int| 0 <= j < n implies s[j] != separator by {
        assert(s[j] == first[j]);
    }
    lemma_next_at(s, separator, 0, n);
    assert(s.take(n) =~= first);
    assert(s.skip(n + 1) =~= rest);
}

/// `parts` in a row, with a separator between each two.
pub open spec fn separated(parts: Seq<Seq<char>>, separator: char) -> Seq<char>
    decreases parts.len(),
{
    if parts.len() == 0 {
        Seq::empty()
    } else if parts.len() == 1 {
        parts[0]
    } else {
        parts[0] + seq![separator] + separated(parts.drop_first(), separator)
    }
}

/// Texts without separators, put in a row, are read back piece by piece.
pub proof fn lemma_separated_reads_back(parts: Seq<Seq<char>>, separator: char)
    requires
        parts.len() > 0,
        forall|i: int| 0 <= i < parts.len() ==> lacks(#[trigger] parts[i], separator),
    ensures
        pieces(separated(parts, separator), separator) == parts,
    decreases parts.len(),
{
    if parts.len() == 1 {
        lemma_one_piece(parts[0], separator);
        assert(parts =~= seq![parts[0]]);
    } else {
        let rest = parts.drop_first();
        assert forall|i: int| 0 <= i < rest.len() implies lacks(#[trigger] rest[i], separator) by {
            assert(rest[i] == parts[i + 1]);
        }
        lemma_separated_reads_back(rest, separator);
        lemma_first_piece(parts[0], separated(rest, separator), separator);
        assert(parts =~= seq![parts[0]] + rest);
    }
}

/// Two rows of parts in a row: the last part of the first and the first of the
/// second become one.
pub open spec fn merged(a: Seq<Seq<char>>, b: Seq<Seq<char>>) -> Seq<Seq<char>> {
    a.drop_last() + seq![a.last() + b.first()] + b.drop_first()
}

/// Two rows of parts in a row read as their merged row.
pub proof fn lemma_separated_merges(a: Seq<Seq<char>>, b: Seq<Seq<char>>, separator: char)
    requires
        a.len() > 0,
        b.len() > 0,
    ensures
        separated(a, separator) + separated(b, separator) == separated(merged(a, b), separator),
    decreases a.len(),
{
    let whole = merged(a, b);
    if a.len() == 1 {
        assert(whole[0] =~= a[0] + b[0]);
        assert(whole.drop_first() =~= b.drop_first());
        if b.len() == 1 {
            assert(separated(a, separator) + separated(b, separator) =~= separated(
                whole,
                separator,
            ));
        } else {
            assert(separated(a, separator) + separated(b, separator) =~= whole[0] + seq![separator]
                + separated(b.drop_first(), separator));
        }
    } else {
        let rest = a.drop_first();
        lemma_separated_merges(rest, b, separator);
        assert(rest.last() == a.last());
        assert(whole.drop_first() =~= merged(rest, b));
        assert(whole[0] == a[0]);
        assert(separated(a, separator) + separated(b, separator) =~= a[0] + seq![separator] + (
        separated(rest, separator) + separated(b, separator)));
    }
}

/// A merged row lacks a character that both its rows lack.
pub proof fn lemma_merged_lacks(a: Seq<Seq<char>>, b: Seq<Seq<char>>, c: char)
    requires
        a.len() > 0,
        b.len() > 0,
        forall|i: int| 0 <= i < a.len() ==> lacks(#[trigger] a[i], c),
        forall|i: int| 0 <= i < b.len() ==> lacks(#[trigger] b[i], c),
    ensures
        forall|i: int| 0 <= i < merged(a, b).len() ==> lacks(#[trigger] merged(a, b)[i], c),
{
    let whole = merged(a, b);
    assert forall|i: int| 0 <= i < whole.len() implies lacks(#[trigger] whole[i], c) by {
        if i < a.len() - 1 {
            assert(whole[i] == a[i]);
        } else if i == a.len() - 1 {
            let x = a[a.len() - 1];
            let y = b[0];
            assert(lacks(x, c) && lacks(y, c));
            assert(whole[i] == x + y);
        } else {
            assert(whole[i] == b[i - a.len() + 1]);
        }
    }
}

// -- Decimal numbers ------------------------------------------------------

/// The character of a decimal digit.
pub open spec fn digit_char(d: nat) -> char {
    (48 + d) as char
}

/// `n` in decimal, without leading zeros.
pub open spec fn decimal_digits(n: nat) -> Seq<char>
    decreases n,
{
    if n < 10 {
        seq![digit_char(n)]
    } else {
        decimal_digits(n / 10).push(digit_char(n % 10))
    }
}

/// Whether `c` is an ASCII digit.
pub open spec fn is_digit(c: char) -> bool {
    '0' <= c <= '9'
}

/// Whether every character of `s` is an ASCII digit.
pub open spec fn all_digits(s: Seq<char>) -> bool {
    forall|i: int| 0 <= i < s.len() ==> is_digit(#[trigger] s[i])
}

/// The number a run of digits spells.
pub open spec fn decimal_value(s: Seq<char>) -> nat
    decreases s.len(),
{
    if s.len() == 0 {
        0
    } else {
        decimal_value(s.drop_last()) * 10 + ((s.last() as int - 48) as nat)
    }
}

/// `s` without one leading plus sign.
pub open spec fn without_plus(s: Seq<char>) -> Seq<char> {
    if s.len() > 0 && s[0] == '+' {
        s.drop_first()
    } else {
        s
    }
}

/// The unsigned 64-bit number `s` spells, if it spells one: an optional plus
/// sign and at least one digit, within range.
pub open spec fn parsed_u64(s: Seq<char>) -> Option<u64> {
    let digits = without_plus(s);
    if digits.len() > 0 && all_digits(digits) && decimal_value(digits) <= u64::MAX {
        Some(decimal_value(digits) as u64)
    } else {
        None
    }
}

/// `n` in decimal.
pub fn decimal(n: u64) -> (out: String)
    ensures
        out@ == decimal_digits(n as nat),
    decreases n,
{
    if n < 10 {
        let mut out: String = String::new();
        out.push((48 + n as u8) as char);
        assert(out@ =~= seq![digit_char(n as nat)]);
        out
    } else {
        let mut out: String = decimal(n / 10);
        out.push((48 + (n % 10) as u8) as char);
        out
    }
}

/// `n` in decimal, with a minus sign where it is negative.
pub open spec fn signed_digits(n: int) -> Seq<char> {
    if n < 0 {
        seq!['-'] + decimal_digits((-n) as nat)
    } else {
        decimal_digits(n as nat)
    }
}

/// `n` in decimal.
pub fn signed_decimal(n: i32) -> (out: String)
    ensures
        out@ == signed_digits(n as int),
{
    if n < 0 {
        let mut out: String = String::new();
        out.push('-');
        out.append(decimal((-(n as i64)) as u64).as_str());
        assert(out@ =~= signed_digits(n as int));
        out
    } else {
        decimal(n as u64)
    }
}

proof fn lemma_decimal_value_grows(s: Seq<char>, i: int)
    requires
        all_digits(s),
        0 <= i <= s.len(),
    ensures
        decimal_value(s.take(i)) <= decimal_value(s),
    decreases s.len() - i,
{
    if i < s.len() {
        lemma_decimal_value_grows(s, i + 1);
        let longer = s.take(i + 1);
        assert(longer.drop_last() == s.take(i));
        assert(is_digit(s[i]));
        assert(longer.last() == s[i]);
    } else {
        assert(s.take(i) == s);
    }
}

/// Parse an unsigned 64-bit number as `str::parse` does.
pub fn parse_u64(chars: &[char]) -> (n: Option<u64>)
    ensures
        n == parsed_u64(chars@),
{
    let start: usize = if chars.len() > 0 && chars[0] == '+' {
        1
    } else {
        0
    };
    let ghost digits = without_plus(chars@);
    assert(digits == chars@.subrange(start as int, chars@.len() as int));
    if start == chars.len() {
        return None;
    }
    let mut value: u64 = 0;
    let mut i: usize = start;
    while i < chars.len()
        invariant
            start <= i <= chars.len(),
            digits == without_plus(chars@),
            digits == chars@.subrange(start as int, chars@.len() as int),
            all_digits(digits.take(i - start)),
            value == decimal_value(digits.take(i - start)),
        decreases chars.len() - i,
    {
        let c: char = chars[i];
        assert(digits[i - start] == c);
        if !('0' <= c && c <= '9') {
            assert(!all_digits(digits));
            return None;
        }
        let digit: u64 = (c as u32 - 48) as u64;
        proof {
            let longer = digits.take(i - start + 1);
            assert(longer.drop_last() == digits.take(i - start));
            assert(longer.last() == c);
            assert forall|j: int| 0 <= j < longer.len() implies is_digit(#[trigger] longer[j]) by {
                if j < i - start {
                    assert(longer[j] == digits.take(i - start)[j]);
                }
            }
            if all_digits(digits) {
                lemma_decimal_value_grows(digits, i - start + 1);
            }
        }
        match value.checked_mul(10) {
            None => return None,
            Some(tens) => match tens.checked_add(digit) {
                None => return None,
                Some(next) => value = next,
            },
        }
        i += 1;
    }
    assert(digits.take(digits.len() as int) == digits);
    Some(value)
}

proof fn lemma_decimal_digits_spell(n: nat)
    ensures
        decimal_digits(n).len() > 0,
        all_digits(decimal_digits(n)),
        decimal_value(decimal_digits(n)) == n,
    decreases n,
{
    if n < 10 {
        let one = seq![digit_char(n)];
        assert(one.drop_last() == Seq::<char>::empty());
        assert(decimal_value(Seq::<char>::empty()) == 0);
        assert(one.last() as int == 48 + n);
    } else {
        lemma_decimal_digits_spell(n / 10);
        let front = decimal_digits(n / 10);
        let all = front.push(digit_char(n % 10));
        assert(all.drop_last() == front);
        assert forall|i: int| 0 <= i < all.len() implies is_digit(#[trigger] all[i]) by {
            if i < front.len() {
                assert(all[i] == front[i]);
            }
        }
    }
}

/// A number written in decimal parses back to itself.
pub proof fn law_decimal_round_trip(n: u64)
    ensures
        parsed_u64(decimal_digits(n as nat)) == Some(n),
{
    lemma_decimal_digits_spell(n as nat);
    let digits = decimal_digits(n as nat);
    assert(is_digit(digits[0]));
}

/// A number is read digit by digit: one digit more makes it ten times as large plus
/// the digit, anything else behind it makes it no number, and what is no number, or
/// too large a one, is not mended by more characters.
pub proof fn law_numbers_are_read_digit_by_digit(s: Seq<char>, c: char)
    ensures
        parsed_u64(Seq::empty()) is None,
        parsed_u64(seq!['+']) is None,
        c != '+' ==> parsed_u64(seq![c]) == (if '0' <= c <= '9' {
            Some((c as int - '0' as int) as u64)
        } else {
            None
        }),
        parsed_u64(s) matches Some(n) ==> parsed_u64(s.push(c)) == (if '0' <= c <= '9' && n * 10 + (
        c as int - '0' as int) <= u64::MAX {
            Some((n * 10 + (c as int - '0' as int)) as u64)
        } else {
            None
        }),
        parsed_u64(s) is None && s.len() > 0 && s != seq!['+'] ==> parsed_u64(s.push(c)) is None,
        s.len() > 0 && s[0] != '+' ==> parsed_u64(seq!['+'] + s) == parsed_u64(s),
{
    let one = seq![c];
    assert(without_plus(seq!['+']) =~= Seq::<char>::empty());
    if c != '+' {
        assert(without_plus(one) =~= one);
        assert(one.drop_last() =~= Seq::<char>::empty());
        assert(decimal_value(Seq::<char>::empty()) == 0);
        assert(one[0] == c);
    }
    let longer = s.push(c);
    if s.len() > 0 {
        let digits = without_plus(s);
        assert(without_plus(longer) =~= digits.push(c));
        assert(digits.push(c).drop_last() =~= digits);
        assert(digits.push(c).last() == c);
        assert(all_digits(digits.push(c)) <==> all_digits(digits) && is_digit(c)) by {
            assert(digits.push(c)[digits.len() as int] == c);
            assert forall|i: int| 0 <= i < digits.len() implies #[trigger] digits[i]
                == digits.push(c)[i] by {}
        }
        if digits.len() == 0 {
            assert(s =~= seq!['+']);
        }
    }
    if s.len() > 0 && s[0] != '+' {
        assert(without_plus(seq!['+'] + s) =~= s);
        assert(without_plus(s) =~= s);
    }
}

/// A number in decimal is its tens in decimal and its last digit; a negative one has
/// a minus sign before it.
pub proof fn law_numbers_are_written_digit_by_digit(n: nat, d: nat)
    requires
        d < 10,
    ensures
        decimal_digits(d) == seq![(48 + d) as char],
        n > 0 ==> decimal_digits(n * 10 + d) == decimal_digits(n).push((48 + d) as char),
        signed_digits(n as int) == decimal_digits(n),
        n > 0 ==> signed_digits(-n) == seq!['-'] + decimal_digits(n),
{
    if n > 0 {
        assert((n * 10 + d) / 10 == n);
        assert((n * 10 + d) % 10 == d);
    }
}

} // verus!
