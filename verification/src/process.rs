//! A snapshot of this process's resource usage, from what the OS reported.
//!
//! A sample is all or nothing: a field is `None` only where a platform has no
//! such count, never because a read failed. A failed read makes the whole sample
//! `None`.

use vstd::prelude::*;
use vstd::slice::slice_subrange;

use crate::text;

verus! {

/// A snapshot of this process's resource usage.
#[derive(Debug, Clone, Copy, PartialEq, Eq, Structural)]
pub struct ProcessMetrics {
    /// Resident set size in bytes.
    pub rss_bytes: u64,
    /// Live GDI objects, or `None` where the concept does not exist.
    pub gdi_objects: Option<u32>,
    /// Live USER objects, or `None` where the concept does not exist.
    pub user_objects: Option<u32>,
    /// Open kernel handles or file descriptors, or `None` on a platform that
    /// counts neither.
    pub kernel_handles: Option<u32>,
}

/// What the platform reported; `None` stands for a query that failed.
#[derive(Debug)]
pub enum Reading<'a> {
    /// Windows: the working set, the two GUI object counts and the handle count.
    Windows {
        /// Working set in bytes.
        working_set: Option<u64>,
        /// GDI objects.
        gdi: Option<u32>,
        /// USER objects.
        user: Option<u32>,
        /// Kernel handles.
        kernel: Option<u32>,
    },
    /// Linux: the text of `/proc/self/statm`, the entry count of `/proc/self/fd`
    /// and the size of a memory page.
    Linux {
        /// The `statm` line.
        statm: Option<&'a str>,
        /// Open descriptors.
        descriptors: Option<u32>,
        /// Bytes in a page; of no account where one of the others is missing.
        page: u64,
    },
    /// A platform that counts nothing.
    Uncounted,
}

// -- Words ------------------------------------------------------------------

/// The first position at or after `from` that is not white space.
pub open spec fn word_start(s: Seq<char>, from: int) -> int
    decreases s.len() - from,
{
    if 0 <= from < s.len() && text::is_white_space(s[from]) {
        word_start(s, from + 1)
    } else {
        from
    }
}

/// The first position at or after `from` that is white space, or the end.
pub open spec fn word_end(s: Seq<char>, from: int) -> int
    decreases s.len() - from,
{
    if 0 <= from < s.len() && !text::is_white_space(s[from]) {
        word_end(s, from + 1)
    } else {
        from
    }
}

/// The word number `n`, counted from zero, at or after `from`: a longest run
/// without white space.
pub open spec fn nth_word(s: Seq<char>, from: int, n: nat) -> Option<Seq<char>>
    decreases n,
{
    let start = word_start(s, from);
    let end = word_end(s, start);
    if start >= s.len() {
        None
    } else if n == 0 {
        Some(s.subrange(start, end))
    } else {
        nth_word(s, end, (n - 1) as nat)
    }
}

fn find_word(chars: &[char], from: usize) -> (word: (usize, usize))
    requires
        from <= chars.len(),
    ensures
        word.0 == word_start(chars@, from as int),
        word.1 == word_end(chars@, word.0 as int),
        from <= word.0 <= word.1 <= chars.len(),
{
    let mut start: usize = from;
    while start < chars.len() && text::white_space(chars[start])
        invariant
            from <= start <= chars.len(),
            word_start(chars@, from as int) == word_start(chars@, start as int),
        decreases chars.len() - start,
    {
        start += 1;
    }
    let mut end: usize = start;
    while end < chars.len() && !text::white_space(chars[end])
        invariant
            start <= end <= chars.len(),
            word_end(chars@, start as int) == word_end(chars@, end as int),
        decreases chars.len() - end,
    {
        end += 1;
    }
    (start, end)
}

/// The number in the second word of a `statm` line.
pub open spec fn second_number(statm: Seq<char>) -> Option<u64> {
    match nth_word(statm, 0, 1) {
        Some(word) => text::parsed_u64(word),
        None => None,
    }
}

/// Field 2 of a `/proc/<pid>/statm` line: resident pages.
pub fn resident_pages(statm: &str) -> (pages: Option<u64>)
    ensures
        pages == second_number(statm@),
{
    let chars: Vec<char> = text::chars_of(statm);
    let first: (usize, usize) = find_word(chars.as_slice(), 0);
    proof {
        reveal_with_fuel(nth_word, 2);
    }
    if first.0 >= chars.len() {
        return None;
    }
    let second: (usize, usize) = find_word(chars.as_slice(), first.1);
    if second.0 >= chars.len() {
        return None;
    }
    text::parse_u64(slice_subrange(chars.as_slice(), second.0, second.1))
}

/// How many entries a directory holds, from the listing: one flag per entry,
/// whether it could be read. `None` for a directory that could not be opened,
/// and for a failure part-way: a truncated count would pass for a smaller one.
pub fn count_dir_entries(listing: Option<&[bool]>) -> (count: Option<u32>)
    ensures
        match listing {
            None => count is None,
            Some(entries) => if entries@.len() <= u32::MAX && !entries@.contains(false) {
                count matches Some(n) && n == entries@.len()
            } else {
                count is None
            },
        },
{
    match listing {
        None => None,
        Some(entries) => {
            let mut counted: u32 = 0;
            let mut i: usize = 0;
            while i < entries.len()
                invariant
                    listing == Some(entries),
                    i <= entries.len(),
                    counted == i,
                    forall|j: int| 0 <= j < i ==> entries@[j],
                decreases entries.len() - i,
            {
                if !entries[i] {
                    assert(entries@.contains(entries@[i as int]));
                    return None;
                }
                match counted.checked_add(1) {
                    Some(next) => counted = next,
                    None => return None,
                }
                i += 1;
            }
            Some(counted)
        },
    }
}

// -- The sample -------------------------------------------------------------

/// A product, held at the largest value that fits.
pub open spec fn saturated_product(a: u64, b: u64) -> u64 {
    if a * b <= u64::MAX {
        (a * b) as u64
    } else {
        u64::MAX
    }
}

/// The sample that a reading gives.
pub open spec fn measured(reading: Reading<'_>) -> Option<ProcessMetrics> {
    match reading {
        Reading::Windows { working_set, gdi, user, kernel } => if working_set is Some && gdi is Some
            && user is Some && kernel is Some {
            Some(
                ProcessMetrics {
                    rss_bytes: working_set->Some_0,
                    gdi_objects: gdi,
                    user_objects: user,
                    kernel_handles: kernel,
                },
            )
        } else {
            None
        },
        Reading::Linux { statm, descriptors, page } => if statm is Some && second_number(
            statm->Some_0@,
        ) is Some && descriptors is Some {
            Some(
                ProcessMetrics {
                    rss_bytes: saturated_product(second_number(statm->Some_0@)->Some_0, page),
                    gdi_objects: None,
                    user_objects: None,
                    kernel_handles: descriptors,
                },
            )
        } else {
            None
        },
        Reading::Uncounted => None,
    }
}

/// This process's metrics, or `None` if the platform cannot tell or a query
/// failed.
#[must_use]
pub fn self_metrics(reading: Reading<'_>) -> (metrics: Option<ProcessMetrics>)
    ensures
        metrics == measured(reading),
{
    match reading {
        Reading::Windows { working_set, gdi, user, kernel } => {
            if working_set.is_none() || gdi.is_none() || user.is_none() || kernel.is_none() {
                return None;
            }
            match working_set {
                Some(rss_bytes) => Some(
                    ProcessMetrics {
                        rss_bytes,
                        gdi_objects: gdi,
                        user_objects: user,
                        kernel_handles: kernel,
                    },
                ),
                None => None,
            }
        },
        Reading::Linux { statm, descriptors, page } => match statm {
            None => None,
            Some(line) => match resident_pages(line) {
                None => None,
                Some(pages) => {
                    if descriptors.is_none() {
                        return None;
                    }
                    let rss_bytes: u64 = match pages.checked_mul(page) {
                        Some(bytes) => bytes,
                        None => u64::MAX,
                    };
                    Some(
                        ProcessMetrics {
                            rss_bytes,
                            gdi_objects: None,
                            user_objects: None,
                            kernel_handles: descriptors,
                        },
                    )
                },
            },
        },
        Reading::Uncounted => None,
    }
}

/// A sample exists only where every query of the platform succeeded, and then
/// `None` in a field says that the platform has no such count: Windows fills all
/// of them, Linux all but the GUI objects.
pub proof fn law_samples_are_all_or_nothing(reading: Reading<'_>)
    ensures
        match measured(reading) {
            None => match reading {
                Reading::Windows { working_set, gdi, user, kernel } => working_set is None
                    || gdi is None || user is None || kernel is None,
                Reading::Linux { statm, descriptors, .. } => statm is None || second_number(
                    statm->Some_0@,
                ) is None || descriptors is None,
                Reading::Uncounted => true,
            },
            Some(m) => match reading {
                Reading::Windows { .. } => m.gdi_objects is Some && m.user_objects is Some
                    && m.kernel_handles is Some,
                Reading::Linux { .. } => m.gdi_objects is None && m.user_objects is None
                    && m.kernel_handles is Some,
                Reading::Uncounted => false,
            },
        },
{
}

/// Whether a text is one word: some characters, none of them white space.
pub open spec fn is_word(s: Seq<char>) -> bool {
    s.len() > 0 && forall|i: int| 0 <= i < s.len() ==> !text::is_white_space(#[trigger] s[i])
}

proof fn lemma_word_start(s: Seq<char>, from: int, at: int)
    requires
        0 <= from <= at <= s.len(),
        forall|i: int| from <= i < at ==> text::is_white_space(#[trigger] s[i]),
        at == s.len() || !text::is_white_space(s[at]),
    ensures
        word_start(s, from) == at,
    decreases at - from,
{
    if from < at {
        assert(text::is_white_space(s[from]));
        lemma_word_start(s, from + 1, at);
    }
}

proof fn lemma_word_end(s: Seq<char>, from: int, at: int)
    requires
        0 <= from <= at <= s.len(),
        forall|i: int| from <= i < at ==> !text::is_white_space(#[trigger] s[i]),
        at == s.len() || text::is_white_space(s[at]),
    ensures
        word_end(s, from) == at,
    decreases at - from,
{
    if from < at {
        assert(!text::is_white_space(s[from]));
        lemma_word_end(s, from + 1, at);
    }
}

/// The count of resident pages is the number that the second word spells, whatever
/// the first word is, however much white space stands round the two and whatever
/// follows behind more of it.
pub proof fn law_second_word_is_the_number(
    indent: Seq<char>,
    first: Seq<char>,
    gap: Seq<char>,
    second: Seq<char>,
    rest: Seq<char>,
)
    requires
        text::is_blank(indent),
        is_word(first),
        text::is_blank(gap),
        gap.len() > 0,
        is_word(second),
        rest.len() > 0 ==> text::is_white_space(rest[0]),
    ensures
        second_number(indent + first + gap + second + rest) == text::parsed_u64(second),
{
    let s = indent + first + gap + second + rest;
    let a = indent.len() as int;
    let b = a + first.len();
    let c = b + gap.len();
    let d = c + second.len();
    assert forall|i: int| 0 <= i < a implies text::is_white_space(#[trigger] s[i]) by {
        assert(s[i] == indent[i]);
    }
    assert forall|i: int| a <= i < b implies !text::is_white_space(#[trigger] s[i]) by {
        assert(s[i] == first[i - a]);
    }
    assert forall|i: int| b <= i < c implies text::is_white_space(#[trigger] s[i]) by {
        assert(s[i] == gap[i - b]);
    }
    assert forall|i: int| c <= i < d implies !text::is_white_space(#[trigger] s[i]) by {
        assert(s[i] == second[i - c]);
    }
    assert(d < s.len() ==> s[d] == rest[0]);
    lemma_word_start(s, 0, a);
    lemma_word_end(s, a, b);
    lemma_word_start(s, b, c);
    lemma_word_end(s, c, d);
    reveal_with_fuel(nth_word, 2);
    assert(s.subrange(c, d) =~= second);
}

/// A line of fewer than two words has no count of resident pages.
pub proof fn law_one_word_is_no_number(indent: Seq<char>, first: Seq<char>, rest: Seq<char>)
    requires
        text::is_blank(indent),
        is_word(first),
        text::is_blank(rest),
    ensures
        second_number(indent) is None,
        second_number(indent + first + rest) is None,
{
    let s = indent + first + rest;
    let a = indent.len() as int;
    let b = a + first.len();
    assert forall|i: int| 0 <= i < a implies text::is_white_space(#[trigger] s[i]) by {
        assert(s[i] == indent[i]);
    }
    assert forall|i: int| a <= i < b implies !text::is_white_space(#[trigger] s[i]) by {
        assert(s[i] == first[i - a]);
    }
    assert forall|i: int| b <= i < s.len() implies text::is_white_space(#[trigger] s[i]) by {
        assert(s[i] == rest[i - b]);
    }
    lemma_word_start(indent, 0, a);
    lemma_word_start(s, 0, a);
    lemma_word_end(s, a, b);
    lemma_word_start(s, b, s.len() as int);
    reveal_with_fuel(nth_word, 2);
}

/// Each count of a sample is the one that was read: the bytes and the three counts on
/// Windows; on Linux the resident pages times the page size, held at the largest
/// value that fits, and the open descriptors.
pub proof fn law_counts_are_those_read(
    bytes: u64,
    gdi: u32,
    user: u32,
    kernel: u32,
    statm: &str,
    pages: u64,
    page: u64,
)
    requires
        second_number(statm@) == Some(pages),
    ensures
        measured(
            Reading::Windows {
                working_set: Some(bytes),
                gdi: Some(gdi),
                user: Some(user),
                kernel: Some(kernel),
            },
        ) matches Some(m) && m.rss_bytes == bytes && m.gdi_objects == Some(gdi) && m.user_objects
            == Some(user) && m.kernel_handles == Some(kernel),
        measured(
            Reading::Linux { statm: Some(statm), descriptors: Some(kernel), page },
        ) matches Some(m) && m.kernel_handles == Some(kernel) && (pages * page <= u64::MAX
            ==> m.rss_bytes == pages * page) && (pages * page > u64::MAX ==> m.rss_bytes
            == u64::MAX),
{
}

} // verus!
