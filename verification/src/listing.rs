//! The listing of locations and their defences.
//!
//! A listing is a text with one record per line, `location,status`. A record
//! marks a vulnerable location when its line ends with the status `weak`. The
//! test is on the end of the line alone, not on the field behind the comma:
//! a line that holds nothing but a location whose name ends in `weak` counts
//! as well.
use crate::text::{lines_of, range_ends_with, split_on, strip_cr, to_chars};
use vstd::prelude::*;

verus! {

/// The status that marks a vulnerable location.
pub open spec fn weak_status() -> Seq<char> {
    seq!['w', 'e', 'a', 'k']
}

/// Whether one line of a listing records a vulnerable location.
pub open spec fn is_weak_line(line: Seq<char>) -> bool {
    weak_status().is_suffix_of(line)
}

/// Whether any of `lines` records a vulnerable location.
pub open spec fn has_weak_line(lines: Seq<Seq<char>>) -> bool {
    exists|i: int| 0 <= i < lines.len() && is_weak_line(#[trigger] lines[i])
}

/// Whether a line that a reader handed over records a vulnerable location.
/// A line that could not be decoded records nothing.
pub open spec fn is_weak_read(line: Option<Seq<char>>) -> bool {
    match line {
        Some(decoded) => is_weak_line(decoded),
        None => false,
    }
}

/// Whether any line of a stream records a vulnerable location.
pub open spec fn has_weak_read(reads: Seq<Option<Seq<char>>>) -> bool {
    exists|i: int| 0 <= i < reads.len() && is_weak_read(#[trigger] reads[i])
}

/// What the scan of a listing that was read in one piece answers: nothing
/// where the listing could not be had, else whether a line of it is weak.
pub open spec fn whole_verdict(listing: Option<Seq<char>>) -> Option<bool> {
    match listing {
        Some(text) => Some(has_weak_line(lines_of(text))),
        None => None,
    }
}

/// What the scan of a listing that was read line by line answers: nothing
/// where the listing could not be opened, else whether a decoded line of it
/// is weak.
pub open spec fn streamed_verdict(reads: Option<Seq<Option<Seq<char>>>>) -> Option<bool> {
    match reads {
        Some(lines) => Some(has_weak_read(lines)),
        None => None,
    }
}

/// The lines of `text` as a reader hands them over when each one decodes.
pub open spec fn decoded_reads(text: Seq<char>) -> Seq<Option<Seq<char>>> {
    lines_of(text).map_values(|line: Seq<char>| Some(line))
}

/// The views of the lines that a reader handed over.
pub open spec fn reads_view(reads: Seq<Option<String>>) -> Seq<Option<Seq<char>>> {
    reads.map_values(
        |line: Option<String>|
            match line {
                Some(decoded) => Some(decoded@),
                None => None,
            },
    )
}

/// Whether `line` records a vulnerable location.
pub fn line_is_weak(line: &str) -> (weak: bool)
    ensures
        weak == is_weak_line(line@),
{
    let chars = to_chars(line);
    let status = to_chars("weak");
    proof {
        reveal_strlit("weak");
        assert(status@ =~= weak_status());
    }
    range_ends_with(&chars, 0, chars.len(), &status)
}

/// Whether any line of `listing` records a vulnerable location.
pub fn listing_has_weak_line(listing: &str) -> (found: bool)
    ensures
        found == has_weak_line(lines_of(listing@)),
{
    let chars = to_chars(listing);
    let status = to_chars("weak");
    proof {
        reveal_strlit("weak");
    }
    let total = chars.len();
    let ghost mut ended: Seq<Seq<char>> = Seq::empty();
    let mut start: usize = 0;
    let mut at: usize = 0;
    assert(listing@.take(0) =~= Seq::<char>::empty());
    while at < total
        invariant
            chars@ == listing@,
            status@ == weak_status(),
            total == chars.len(),
            start <= at <= total,
            split_on(listing@.take(at as int), '\n') == ended.push(
                listing@.subrange(start as int, at as int),
            ),
            forall|i: int| 0 <= i < ended.len() ==> !is_weak_line(strip_cr(#[trigger] ended[i])),
        decreases total - at,
    {
        let ghost open = listing@.subrange(start as int, at as int);
        assert(listing@.take(at + 1).drop_last() =~= listing@.take(at as int));
        if chars[at] == '\n' {
            let end = if at > start && chars[at - 1] == '\r' {
                at - 1
            } else {
                at
            };
            if range_ends_with(&chars, start, end, &status) {
                proof {
                    lemma_weak_ended_line(listing@, at as int, ended, open);
                }
                return true;
            }
            proof {
                ended = ended.push(open);
            }
            start = at + 1;
            assert(listing@.subrange(start as int, at + 1) =~= Seq::<char>::empty());
        } else {
            assert(listing@.subrange(start as int, at + 1) =~= open.push(chars@[at as int]));
        }
        at = at + 1;
    }
    assert(listing@.take(total as int) =~= listing@);
    let found = range_ends_with(&chars, start, total, &status);
    proof {
        let open = listing@.subrange(start as int, total as int);
        let lines = lines_of(listing@);
        if found {
            assert(lines.last() == open);
        } else {
            assert forall|i: int| 0 <= i < lines.len() implies !is_weak_line(
                #[trigger] lines[i],
            ) by {
                if i < ended.len() {
                    assert(lines[i] == strip_cr(ended[i]));
                } else {
                    assert(lines[i] == open);
                }
            }
        }
    }
    found
}

/// Whether any decoded line among `reads` records a vulnerable location.
pub fn stream_has_weak_line(reads: &Vec<Option<String>>) -> (found: bool)
    ensures
        found == has_weak_read(reads_view(reads@)),
{
    let ghost lines = reads_view(reads@);
    let mut at: usize = 0;
    while at < reads.len()
        invariant
            at <= reads.len(),
            lines == reads_view(reads@),
            forall|i: int| 0 <= i < at ==> !is_weak_read(#[trigger] lines[i]),
        decreases reads.len() - at,
    {
        match &reads[at] {
            Some(line) => {
                if line_is_weak(line.as_str()) {
                    assert(is_weak_read(lines[at as int]));
                    return true;
                }
            },
            None => {},
        }
        at = at + 1;
    }
    false
}

/// Both ways of reading agree: a listing scanned in one piece and the same
/// listing scanned line by line, each line decoded, give the same answer.
pub proof fn lemma_whole_and_streamed_agree(text: Seq<char>)
    ensures
        streamed_verdict(Some(decoded_reads(text))) == whole_verdict(Some(text)),
        streamed_verdict(None) == whole_verdict(None),
{
    let lines = lines_of(text);
    let reads = decoded_reads(text);
    if has_weak_line(lines) {
        let i = choose|i: int| 0 <= i < lines.len() && is_weak_line(#[trigger] lines[i]);
        assert(is_weak_read(reads[i]));
    }
    if has_weak_read(reads) {
        let i = choose|i: int| 0 <= i < reads.len() && is_weak_read(#[trigger] reads[i]);
        assert(is_weak_line(lines[i]));
    }
}

/// Reading line by line tolerates a line that does not decode: such a line,
/// wherever it stands in the stream, leaves the answer as it is without it.
pub proof fn lemma_undecodable_read_is_skipped(reads: Seq<Option<Seq<char>>>, at: int)
    requires
        0 <= at <= reads.len(),
    ensures
        streamed_verdict(Some(reads.insert(at, None))) == streamed_verdict(Some(reads)),
{
    let longer = reads.insert(at, None);
    if has_weak_read(reads) {
        let i = choose|i: int| 0 <= i < reads.len() && is_weak_read(#[trigger] reads[i]);
        if i < at {
            assert(is_weak_read(longer[i]));
        } else {
            assert(is_weak_read(longer[i + 1]));
        }
    }
    if has_weak_read(longer) {
        let i = choose|i: int| 0 <= i < longer.len() && is_weak_read(#[trigger] longer[i]);
        if i < at {
            assert(is_weak_read(reads[i]));
        } else {
            assert(is_weak_read(reads[i - 1]));
        }
    }
}

/// A weak line that ends at a line feed is a weak line of the whole listing,
/// whatever follows the line feed.
proof fn lemma_weak_ended_line(text: Seq<char>, at: int, ended: Seq<Seq<char>>, open: Seq<char>)
    requires
        0 <= at < text.len(),
        text[at] == '\n',
        split_on(text.take(at), '\n') == ended.push(open),
        is_weak_line(strip_cr(open)),
    ensures
        has_weak_line(lines_of(text)),
{
    lemma_split_on_extends(text, at + 1);
    assert(text.take(at + 1).drop_last() =~= text.take(at));
    assert(split_on(text, '\n')[ended.len() as int] == open);
    assert(lines_of(text)[ended.len() as int] == strip_cr(open));
}

/// Splitting a longer text keeps every piece that a separator has closed in
/// a shorter beginning of it.
proof fn lemma_split_on_extends(text: Seq<char>, upto: int)
    requires
        0 <= upto <= text.len(),
    ensures
        split_on(text.take(upto), '\n').len() <= split_on(text, '\n').len(),
        forall|i: int|
            0 <= i < split_on(text.take(upto), '\n').len() - 1 ==> split_on(text, '\n')[i]
                == split_on(text.take(upto), '\n')[i],
    decreases text.len() - upto,
{
    if upto < text.len() {
        lemma_split_on_extends(text, upto + 1);
        crate::text::lemma_split_on_nonempty(text.take(upto), '\n');
        assert(text.take(upto + 1).drop_last() =~= text.take(upto));
    } else {
        assert(text.take(upto) =~= text);
    }
}

} // verus!
