//! Splitting text into pieces and lines, and testing how a text ends.
//!
//! Every executable function here comes with a specification over sequences
//! of characters, so that callers can reason about names and listings as
//! plain mathematical values.
use vstd::prelude::*;

verus! {

/// The pieces of `text` between occurrences of `sep`.
///
/// There is always one piece more than there are separators: an empty text
/// has the single piece `""`, and two neighbouring separators enclose an
/// empty piece.
pub open spec fn split_on(text: Seq<char>, sep: char) -> Seq<Seq<char>>
    decreases text.len(),
{
    if text.len() == 0 {
        seq![Seq::<char>::empty()]
    } else {
        let before = split_on(text.drop_last(), sep);
        if text.last() == sep {
            before.push(Seq::<char>::empty())
        } else {
            before.drop_last().push(before.last().push(text.last()))
        }
    }
}

/// The pieces put together again, with one `sep` between neighbours.
pub open spec fn join_with(pieces: Seq<Seq<char>>, sep: char) -> Seq<char>
    decreases pieces.len(),
{
    if pieces.len() == 0 {
        Seq::<char>::empty()
    } else if pieces.len() == 1 {
        pieces[0]
    } else {
        join_with(pieces.drop_last(), sep).push(sep) + pieces.last()
    }
}

/// Splitting never yields an empty list of pieces.
pub proof fn lemma_split_on_nonempty(text: Seq<char>, sep: char)
    ensures
        split_on(text, sep).len() >= 1,
    decreases text.len(),
{
    if text.len() > 0 {
        lemma_split_on_nonempty(text.drop_last(), sep);
    }
}

/// No piece of a split contains the separator.
pub proof fn lemma_split_on_pieces_free_of_sep(text: Seq<char>, sep: char)
    ensures
        forall|i: int, j: int|
            0 <= i < split_on(text, sep).len() && 0 <= j < split_on(text, sep)[i].len()
                ==> split_on(text, sep)[i][j] != sep,
    decreases text.len(),
{
    if text.len() > 0 {
        lemma_split_on_pieces_free_of_sep(text.drop_last(), sep);
        lemma_split_on_nonempty(text.drop_last(), sep);
    }
}

/// Joining the pieces of a split gives the text back.
pub proof fn lemma_join_of_split(text: Seq<char>, sep: char)
    ensures
        join_with(split_on(text, sep), sep) == text,
    decreases text.len(),
{
    if text.len() > 0 {
        let shorter = text.drop_last();
        let before = split_on(shorter, sep);
        lemma_join_of_split(shorter, sep);
        lemma_split_on_nonempty(shorter, sep);
        if text.last() == sep {
            let pieces = before.push(Seq::<char>::empty());
            assert(pieces.drop_last() =~= before);
        } else {
            let longer = before.last().push(text.last());
            let pieces = before.drop_last().push(longer);
            assert(pieces.drop_last() =~= before.drop_last());
            if before.len() > 1 {
                assert(join_with(pieces, sep) =~= join_with(before, sep).push(text.last()));
            }
        }
    }
}

/// A text without the separator is a single piece.
pub proof fn lemma_split_on_without_sep(text: Seq<char>, sep: char)
    requires
        !text.contains(sep),
    ensures
        split_on(text, sep) == seq![text],
    decreases text.len(),
{
    if text.len() > 0 {
        let shorter = text.drop_last();
        assert(!shorter.contains(sep));
        lemma_split_on_without_sep(shorter, sep);
        assert(shorter.push(text.last()) =~= text);
    } else {
        assert(text =~= Seq::<char>::empty());
    }
}

/// A separator and a piece without separators behind a text add that one
/// piece to the pieces of the text.
pub proof fn lemma_split_on_one_more_piece(text: Seq<char>, sep: char, piece: Seq<char>)
    requires
        !piece.contains(sep),
    ensures
        split_on(text.push(sep) + piece, sep) == split_on(text, sep).push(piece),
    decreases piece.len(),
{
    let whole = text.push(sep) + piece;
    if piece.len() > 0 {
        let shorter = piece.drop_last();
        assert(!shorter.contains(sep));
        lemma_split_on_one_more_piece(text, sep, shorter);
        assert(whole.drop_last() =~= text.push(sep) + shorter);
        assert(shorter.push(piece.last()) =~= piece);
    } else {
        assert(whole.drop_last() =~= text);
        assert(piece =~= Seq::<char>::empty());
    }
}

/// What stands before a line feed, without the carriage return that may
/// come last in it.
pub open spec fn strip_cr(piece: Seq<char>) -> Seq<char> {
    if piece.len() > 0 && piece.last() == '\r' {
        piece.drop_last()
    } else {
        piece
    }
}

/// The lines of `text`.
///
/// A line ends at a line feed, or at a carriage return directly followed by
/// a line feed; neither belongs to the line. What follows the last line feed
/// is a line of its own unless it is empty, and it keeps a trailing carriage
/// return.
pub open spec fn lines_of(text: Seq<char>) -> Seq<Seq<char>> {
    let pieces = split_on(text, '\n');
    let ended = pieces.drop_last().map_values(|piece: Seq<char>| strip_cr(piece));
    if pieces.last().len() == 0 {
        ended
    } else {
        ended.push(pieces.last())
    }
}

/// The characters of `text`, one by one.
pub fn to_chars(text: &str) -> (chars: Vec<char>)
    ensures
        chars@ == text@,
{
    let mut chars: Vec<char> = Vec::new();
    for c in it: text.chars()
        invariant
            it.seq() == text@,
            chars@ == text@.take(it.index() as int),
    {
        chars.push(c);
    }
    chars
}

/// Splits `text` at every occurrence of `sep`. Each piece is cut out of
/// `text` by counting characters from its start.
pub fn split(text: &str, sep: char) -> (pieces: Vec<String>)
    ensures
        pieces.deep_view() == split_on(text@, sep),
{
    let chars = to_chars(text);
    let total = chars.len();
    let mut pieces: Vec<String> = Vec::new();
    let mut start: usize = 0;
    let mut at: usize = 0;
    assert(text@.take(0) =~= Seq::<char>::empty());
    while at < total
        invariant
            chars@ == text@,
            total == chars.len(),
            start <= at <= total,
            split_on(text@.take(at as int), sep) == pieces.deep_view().push(
                text@.subrange(start as int, at as int),
            ),
        decreases total - at,
    {
        let ghost open = text@.subrange(start as int, at as int);
        assert(text@.take(at + 1).drop_last() =~= text@.take(at as int));
        if chars[at] == sep {
            pieces.push(text.substring_char(start, at).to_owned());
            start = at + 1;
            assert(text@.subrange(start as int, at + 1) =~= Seq::<char>::empty());
        } else {
            assert(text@.subrange(start as int, at + 1) =~= open.push(chars@[at as int]));
        }
        at = at + 1;
    }
    assert(text@.take(total as int) =~= text@);
    pieces.push(text.substring_char(start, total).to_owned());
    pieces
}

/// Whether the characters of `chars` from `start` up to, but not including,
/// `end` end with `suffix`.
pub fn range_ends_with(chars: &Vec<char>, start: usize, end: usize, suffix: &Vec<char>) -> (yes:
    bool)
    requires
        start <= end <= chars.len(),
    ensures
        yes == suffix@.is_suffix_of(chars@.subrange(start as int, end as int)),
{
    let ghost range = chars@.subrange(start as int, end as int);
    let width = suffix.len();
    if width > end - start {
        return false;
    }
    let from = end - width;
    let mut k: usize = 0;
    while k < width
        invariant
            start <= from,
            from + width == end,
            end <= chars.len(),
            width == suffix.len(),
            k <= width,
            range == chars@.subrange(start as int, end as int),
            forall|j: int| 0 <= j < k ==> chars@[from + j] == suffix@[j],
        decreases width - k,
    {
        if chars[from + k] != suffix[k] {
            return false;
        }
        k = k + 1;
    }
    true
}

/// Whether `text` ends with `suffix`.
pub fn ends_with(text: &str, suffix: &str) -> (yes: bool)
    ensures
        yes == suffix@.is_suffix_of(text@),
{
    let chars = to_chars(text);
    let wanted = to_chars(suffix);
    range_ends_with(&chars, 0, chars.len(), &wanted)
}

} // verus!
