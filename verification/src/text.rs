//! Text as sequences of characters: its lines, its blanks and its length in bytes.

use vstd::prelude::*;
use vstd::string::*;
use vstd::utf8::encode_utf8;

verus! {

/// The length of `text` in bytes, as UTF-8 encodes it.
pub open spec fn byte_len(text: Seq<char>) -> usize {
    encode_utf8(text).len() as usize
}

/// Whether `c` is white space: the characters with the Unicode property `White_Space`.
pub open spec fn is_white_space(c: char) -> bool {
    ||| '\u{9}' <= c <= '\u{d}'
    ||| c == '\u{20}'
    ||| c == '\u{85}'
    ||| c == '\u{a0}'
    ||| c == '\u{1680}'
    ||| '\u{2000}' <= c <= '\u{200a}'
    ||| '\u{2028}' <= c <= '\u{2029}'
    ||| c == '\u{202f}'
    ||| c == '\u{205f}'
    ||| c == '\u{3000}'
}

/// Whether nothing is left of `text` without the white space.
pub open spec fn is_blank(text: Seq<char>) -> bool {
    forall|i: int| 0 <= i < text.len() ==> is_white_space(#[trigger] text[i])
}

pub fn char_is_white_space(c: char) -> (white: bool)
    ensures
        white == is_white_space(c),
{
    ('\u{9}' <= c && c <= '\u{d}') || c == '\u{20}' || c == '\u{85}' || c == '\u{a0}' || c
        == '\u{1680}' || ('\u{2000}' <= c && c <= '\u{200a}') || ('\u{2028}' <= c && c
        <= '\u{2029}') || c == '\u{202f}' || c == '\u{205f}' || c == '\u{3000}'
}

/// Where the line that holds position `from` ends: at the next newline, or at the end of `text`.
pub open spec fn line_end(text: Seq<char>, from: int) -> int
    decreases text.len() - from,
{
    if from >= text.len() {
        text.len() as int
    } else if text[from] == '\n' {
        from
    } else {
        line_end(text, from + 1)
    }
}

/// The line of `text` from `from` to its end at `end`. A carriage return belongs to the line end
/// where it stands right before the newline.
pub open spec fn line_text(text: Seq<char>, from: int, end: int) -> Seq<char> {
    if from < end < text.len() && text[end - 1] == '\r' {
        text.subrange(from, end - 1)
    } else {
        text.subrange(from, end)
    }
}

/// The lines of `text` that start at `from` or later. A newline at the very end starts no line.
pub open spec fn lines_from(text: Seq<char>, from: int) -> Seq<Seq<char>>
    decreases text.len() + 1 - from,
    when 0 <= from
    via lines_from_decreases
{
    if from >= text.len() {
        Seq::empty()
    } else {
        let end = line_end(text, from);
        seq![line_text(text, from, end)] + lines_from(text, end + 1)
    }
}

#[via_fn]
proof fn lines_from_decreases(text: Seq<char>, from: int) {
    lemma_line_end(text, from);
}

/// A line ends where it starts or later, and holds no newline before its end.
proof fn lemma_line_end(text: Seq<char>, from: int)
    ensures
        0 <= from <= text.len() ==> from <= line_end(text, from) <= text.len(),
        forall|i: int| 0 <= from <= i < line_end(text, from) ==> text[i] != '\n',
    decreases text.len() - from,
{
    if 0 <= from < text.len() && text[from] != '\n' {
        lemma_line_end(text, from + 1);
    }
}

/// The lines of `text`.
pub open spec fn lines(text: Seq<char>) -> Seq<Seq<char>> {
    lines_from(text, 0)
}

/// Those of `lines` that are not blank, in order.
pub open spec fn spoken(lines: Seq<Seq<char>>) -> Seq<Seq<char>>
    decreases lines.len(),
{
    if lines.len() == 0 {
        Seq::empty()
    } else if is_blank(lines[0]) {
        spoken(lines.drop_first())
    } else {
        seq![lines[0]] + spoken(lines.drop_first())
    }
}

/// The characters of each of `texts`.
pub open spec fn texts_view(texts: Seq<String>) -> Seq<Seq<char>> {
    Seq::new(texts.len(), |i: int| texts[i]@)
}

/// The characters of `text`.
pub fn chars_of(text: &str) -> (chars: Vec<char>)
    ensures
        chars@ == text@,
{
    let mut chars: Vec<char> = Vec::new();
    for c in walk: text.chars()
        invariant
            walk.seq() == text@,
            chars@ == text@.take(walk.index()),
    {
        chars.push(c);
    }
    chars
}

/// Whether `chars[from..to]` is all white space.
fn range_is_blank(chars: &Vec<char>, from: usize, to: usize) -> (blank: bool)
    requires
        from <= to <= chars@.len(),
    ensures
        blank == is_blank(chars@.subrange(from as int, to as int)),
{
    let ghost range = chars@.subrange(from as int, to as int);
    let mut i: usize = from;
    while i < to
        invariant
            from <= i <= to <= chars@.len(),
            range == chars@.subrange(from as int, to as int),
            forall|j: int| 0 <= j < i - from ==> is_white_space(#[trigger] range[j]),
        decreases to - i,
    {
        if !char_is_white_space(chars[i]) {
            assert(range[i - from] == chars@[i as int]);
            return false;
        }
        i += 1;
    }
    true
}

/// The lines of `text` that are not blank.
pub fn spoken_lines(text: &str) -> (kept: Vec<String>)
    ensures
        texts_view(kept@) == spoken(lines(text@)),
{
    let chars = chars_of(text);
    let len = chars.len();
    let mut kept: Vec<String> = Vec::new();
    let mut from: usize = 0;
    while from < len
        invariant
            chars@ == text@,
            from <= len == text@.len(),
            texts_view(kept@) + spoken(lines_from(text@, from as int)) == spoken(lines(text@)),
        decreases len - from,
    {
        let mut end: usize = from;
        while end < len && chars[end] != '\n'
            invariant
                chars@ == text@,
                from <= end <= len == text@.len(),
                line_end(text@, end as int) == line_end(text@, from as int),
            decreases len - end,
        {
            end += 1;
        }
        let stop = if from < end && end < len && chars[end - 1] == '\r' {
            end - 1
        } else {
            end
        };
        let ghost before = kept@;
        let ghost rest = lines_from(text@, end + 1);
        assert(lines_from(text@, from as int).drop_first() == rest);
        if !range_is_blank(&chars, from, stop) {
            let line = text.substring_char(from, stop);
            kept.push(line.to_owned());
            assert(texts_view(kept@) == texts_view(before).push(line@));
            assert(texts_view(before) + (seq![line@] + spoken(rest)) == texts_view(kept@) + spoken(
                rest,
            ));
        }
        if end < len {
            from = end + 1;
        } else {
            from = len;
        }
    }
    kept
}

/// No line holds a newline.
pub proof fn law_lines_hold_no_newline(text: Seq<char>, from: int, i: int)
    requires
        0 <= from,
        0 <= i < lines_from(text, from).len(),
    ensures
        !lines_from(text, from)[i].contains('\n'),
    decreases text.len() + 1 - from,
{
    lemma_line_end(text, from);
    let end = line_end(text, from);
    let first = line_text(text, from, end);
    if i == 0 {
        assert(lines_from(text, from)[0] == first);
        if first.contains('\n') {
            let at = first.index_of('\n');
            assert(text[from + at] == '\n');
        }
    } else {
        law_lines_hold_no_newline(text, end + 1, i - 1);
        assert(lines_from(text, from)[i] == lines_from(text, end + 1)[i - 1]);
    }
}

/// What is kept of some lines are lines among them that are not blank.
pub proof fn law_spoken_lines_are_not_blank(lines: Seq<Seq<char>>, i: int)
    requires
        0 <= i < spoken(lines).len(),
    ensures
        !is_blank(spoken(lines)[i]),
        lines.contains(spoken(lines)[i]),
    decreases lines.len(),
{
    let rest = lines.drop_first();
    if is_blank(lines[0]) {
        law_spoken_lines_are_not_blank(rest, i);
        assert(lines[rest.index_of(spoken(lines)[i]) + 1] == spoken(lines)[i]);
    } else if i == 0 {
        assert(spoken(lines)[0] == lines[0]);
    } else {
        law_spoken_lines_are_not_blank(rest, i - 1);
        assert(spoken(lines)[i] == spoken(rest)[i - 1]);
        assert(lines[rest.index_of(spoken(lines)[i]) + 1] == spoken(lines)[i]);
    }
}

/// Every line that is not blank is kept.
pub proof fn law_every_line_that_speaks_is_kept(lines: Seq<Seq<char>>, line: Seq<char>)
    requires
        lines.contains(line),
        !is_blank(line),
    ensures
        spoken(lines).contains(line),
    decreases lines.len(),
{
    let rest = lines.drop_first();
    if lines[0] == line {
        assert(spoken(lines)[0] == line);
    } else {
        assert(rest[lines.index_of(line) - 1] == line);
        law_every_line_that_speaks_is_kept(rest, line);
        let at = spoken(rest).index_of(line);
        if is_blank(lines[0]) {
            assert(spoken(lines)[at] == line);
        } else {
            assert(spoken(lines)[at + 1] == line);
        }
    }
}

/// The characters that are white space: the twenty-five of Unicode, and no letter, digit,
/// punctuation mark or symbol.
pub proof fn law_white_space(c: char)
    ensures
        is_white_space(c) <==> seq![
            '\t', '\n', '\u{b}', '\u{c}', '\r', ' ', '\u{85}', '\u{a0}', '\u{1680}',
            '\u{2000}', '\u{2001}', '\u{2002}', '\u{2003}', '\u{2004}', '\u{2005}', '\u{2006}',
            '\u{2007}', '\u{2008}', '\u{2009}', '\u{200a}', '\u{2028}', '\u{2029}', '\u{202f}',
            '\u{205f}', '\u{3000}',
        ].contains(c),
        '!' <= c <= '~' ==> !is_white_space(c),
{
    let all = seq![
        '\t', '\n', '\u{b}', '\u{c}', '\r', ' ', '\u{85}', '\u{a0}', '\u{1680}',
        '\u{2000}', '\u{2001}', '\u{2002}', '\u{2003}', '\u{2004}', '\u{2005}', '\u{2006}',
        '\u{2007}', '\u{2008}', '\u{2009}', '\u{200a}', '\u{2028}', '\u{2029}', '\u{202f}',
        '\u{205f}', '\u{3000}',
    ];
    assert(all[0] == '\t' && all[1] == '\n' && all[2] == '\u{b}' && all[3] == '\u{c}');
    assert(all[4] == '\r' && all[5] == ' ' && all[6] == '\u{85}' && all[7] == '\u{a0}');
    assert(all[8] == '\u{1680}' && all[9] == '\u{2000}' && all[10] == '\u{2001}');
    assert(all[11] == '\u{2002}' && all[12] == '\u{2003}' && all[13] == '\u{2004}');
    assert(all[14] == '\u{2005}' && all[15] == '\u{2006}' && all[16] == '\u{2007}');
    assert(all[17] == '\u{2008}' && all[18] == '\u{2009}' && all[19] == '\u{200a}');
    assert(all[20] == '\u{2028}' && all[21] == '\u{2029}' && all[22] == '\u{202f}');
    assert(all[23] == '\u{205f}' && all[24] == '\u{3000}');
}

/// A line with a single character that is not white space is kept, wherever in the line that
/// character stands.
pub proof fn law_a_line_that_shows_something_is_kept(lines: Seq<Seq<char>>, k: int, i: int)
    requires
        0 <= k < lines.len(),
        0 <= i < lines[k].len(),
        !is_white_space(lines[k][i]),
    ensures
        spoken(lines).contains(lines[k]),
{
    law_every_line_that_speaks_is_kept(lines, lines[k]);
}

/// A line is kept by itself exactly if one of its characters is not white space.
pub proof fn law_a_single_line_is_kept_or_left_out(line: Seq<char>)
    ensures
        (exists|i: int| 0 <= i < line.len() && !is_white_space(#[trigger] line[i])) ==> spoken(
            seq![line],
        ) == seq![line],
        (forall|i: int| 0 <= i < line.len() ==> is_white_space(#[trigger] line[i])) ==> spoken(
            seq![line],
        ) == Seq::<Seq<char>>::empty(),
{
    reveal_with_fuel(spoken, 2);
    assert(seq![line].drop_first() == Seq::<Seq<char>>::empty());
    if exists|i: int| 0 <= i < line.len() && !is_white_space(#[trigger] line[i]) {
        assert(!is_blank(line));
        assert(spoken(seq![line]) == seq![line]);
    }
}

/// What is kept of some lines and then others is what is kept of the ones and then of the others.
pub proof fn law_lines_are_kept_in_order(first: Seq<Seq<char>>, second: Seq<Seq<char>>)
    ensures
        spoken(first + second) == spoken(first) + spoken(second),
    decreases first.len(),
{
    if first.len() == 0 {
        assert(first + second == second);
    } else {
        law_lines_are_kept_in_order(first.drop_first(), second);
        assert((first + second).drop_first() == first.drop_first() + second);
    }
}

/// The text behind some characters has its own line ends.
proof fn lemma_line_end_behind(front: Seq<char>, text: Seq<char>, from: int)
    requires
        0 <= from <= text.len(),
    ensures
        line_end(front + text, front.len() + from) == front.len() + line_end(text, from),
    decreases text.len() - from,
{
    if from < text.len() {
        assert((front + text)[front.len() + from] == text[from]);
        if text[from] != '\n' {
            lemma_line_end_behind(front, text, from + 1);
        }
    }
}

/// The text behind some characters has its own lines.
proof fn lemma_lines_behind(front: Seq<char>, text: Seq<char>, from: int)
    requires
        0 <= from,
    ensures
        lines_from(front + text, front.len() + from) == lines_from(text, from),
    decreases text.len() + 1 - from,
{
    if from < text.len() {
        let all = front + text;
        let end = line_end(text, from);
        lemma_line_end(text, from);
        lemma_line_end_behind(front, text, from);
        lemma_lines_behind(front, text, end + 1);
        assert(line_text(all, front.len() + from, front.len() + end) =~= line_text(text, from, end));
    }
}

/// A line without a newline ends with the text.
proof fn lemma_line_end_without_newline(text: Seq<char>, from: int, end: int)
    requires
        0 <= from <= end <= text.len(),
        forall|i: int| from <= i < end ==> text[i] != '\n',
        end == text.len() || text[end] == '\n',
    ensures
        line_end(text, from) == end,
    decreases end - from,
{
    if from < end {
        lemma_line_end_without_newline(text, from + 1, end);
    }
}

/// Text without a newline is one line, as it stands. Empty text has no line.
pub proof fn law_text_without_a_newline_is_one_line(text: Seq<char>)
    requires
        !text.contains('\n'),
    ensures
        text.len() > 0 ==> lines(text) == seq![text],
        text.len() == 0 ==> lines(text).len() == 0,
{
    if text.len() > 0 {
        assert forall|i: int| 0 <= i < text.len() implies text[i] != '\n' by {
            assert(text.contains(text[i]));
        }
        lemma_line_end_without_newline(text, 0, text.len() as int);
        assert(lines_from(text, (text.len() + 1) as int).len() == 0);
        assert(text.subrange(0, text.len() as int) == text);
    }
}

/// What stands before the first newline is the first line, but for a carriage return at its end,
/// and what stands behind the newline has the other lines.
pub proof fn law_a_newline_ends_a_line(first: Seq<char>, rest: Seq<char>)
    requires
        !first.contains('\n'),
    ensures
        first.len() > 0 && first.last() == '\r' ==> lines(first + seq!['\n'] + rest) == seq![
            first.drop_last(),
        ] + lines(rest),
        first.len() == 0 || first.last() != '\r' ==> lines(first + seq!['\n'] + rest) == seq![first]
            + lines(rest),
{
    let front = first + seq!['\n'];
    let text = front + rest;
    let end = first.len() as int;
    assert forall|i: int| 0 <= i < end implies text[i] != '\n' by {
        assert(text[i] == first[i] && first.contains(first[i]));
    }
    assert(text[end] == '\n');
    lemma_line_end_without_newline(text, 0, end);
    lemma_lines_behind(front, rest, 0);
    assert(lines_from(text, end + 1) == lines(rest));
    assert(text.subrange(0, end) == first);
    if end > 0 {
        assert(text[end - 1] == first.last());
        assert(text.subrange(0, end - 1) == first.drop_last());
    }
}

/// Texts are read as they stand.
pub proof fn law_texts_are_read_as_they_stand(texts: Seq<String>, i: int)
    requires
        0 <= i < texts.len(),
    ensures
        texts_view(texts).len() == texts.len(),
        texts_view(texts)[i] == texts[i]@,
{
}

/// The length of a text is the number of bytes that UTF-8 takes for it.
pub proof fn law_length_in_bytes(text: Seq<char>)
    requires
        encode_utf8(text).len() <= usize::MAX,
    ensures
        byte_len(text) == encode_utf8(text).len(),
{
}

} // verus!
