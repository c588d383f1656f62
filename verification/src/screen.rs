//! The cell buffer of the terminal interface, and what is drawn into it.

use ratatui::buffer::Buffer;
use ratatui::style::Color;
use vstd::prelude::*;
use vstd::utf8::{encode_utf8, is_ascii_chars};

use crate::geometry::{least, minus, Rect};
use crate::text::{byte_len, texts_view};

verus! {

/// A colour of the terminal interface. It is carried from the palette to the cells and never
/// looked into.
#[verifier::external_type_specification]
#[verifier::external_body]
pub struct ExColor(ratatui::style::Color);

/// The buffer that a frame is drawn into. What it holds is [`cells`].
#[verifier::external_type_specification]
#[verifier::external_body]
pub struct ExBuffer(ratatui::buffer::Buffer);

/// The modifier bit for bold text.
pub const BOLD: u16 = 1;

/// How text is drawn: colours where they are set, and the modifier bits to add.
#[derive(Debug, Clone, Copy, PartialEq, Eq)]
pub struct Style {
    pub fg: Option<Color>,
    pub bg: Option<Color>,
    pub modifiers: u16,
}

/// A run of text in one style.
#[derive(Debug)]
pub struct Span {
    pub content: String,
    pub style: Style,
}

/// What a [`Span`] says.
pub struct SpanView {
    pub content: Seq<char>,
    pub style: Style,
}

impl View for Span {
    type V = SpanView;

    open spec fn view(&self) -> SpanView {
        SpanView { content: self.content@, style: self.style }
    }
}

/// What the spans of a line say.
pub open spec fn spans_view(spans: Seq<Span>) -> Seq<SpanView> {
    Seq::new(spans.len(), |i: int| spans[i]@)
}

/// What one cell shows.
pub struct CellFace {
    pub symbol: Seq<char>,
    pub fg: Color,
    pub bg: Color,
    pub modifiers: u16,
    pub skip: bool,
}

/// Cells by their column and row.
pub type Cells = Map<(u16, u16), CellFace>;

/// The cells of a buffer, by the positions at which `Buffer::cell` gives one.
pub uninterp spec fn cells(buffer: Buffer) -> Map<(u16, u16), CellFace>;

/// Whether there is a cell at every position of `area`.
pub open spec fn covers(cells: Cells, area: Rect) -> bool {
    forall|x: u16, y: u16| #[trigger] area.has(x, y) ==> cells.contains_key((x, y))
}

/// Whether two frames show the same cells, but for those of `area`.
pub open spec fn same_outside(before: Cells, after: Cells, area: Rect) -> bool {
    &&& after.dom() == before.dom()
    &&& forall|x: u16, y: u16|
        before.contains_key((x, y)) && !area.has(x, y) ==> #[trigger] after[(x, y)] == before[(
            x,
            y,
        )]
}

/// `ratatui::buffer::Buffer::cell`: whether the buffer has a cell at `(x, y)`.
#[verifier::external_body]
fn has_cell(buffer: &Buffer, x: u16, y: u16) -> (has: bool)
    ensures
        has == cells(*buffer).contains_key((x, y)),
{
    buffer.cell((x, y)).is_some()
}

/// Whether the buffer has a cell at every position of `area`.
pub fn covers_area(buffer: &Buffer, area: Rect) -> (covered: bool)
    ensures
        covered == covers(cells(*buffer), area),
{
    let mut y: u16 = area.y;
    while y < area.bottom()
        invariant
            area.y <= y,
            forall|u: u16, v: u16| #[trigger]
                area.has(u, v) && v < y ==> cells(*buffer).contains_key((u, v)),
        decreases area.bottom_end() - y,
    {
        let mut x: u16 = area.x;
        while x < area.right()
            invariant
                area.x <= x,
                area.y <= y < area.bottom_end(),
                forall|u: u16, v: u16| #[trigger]
                    area.has(u, v) && (v < y || v == y && u < x) ==> cells(*buffer).contains_key(
                        (u, v),
                    ),
            decreases area.right_end() - x,
        {
            if !has_cell(buffer, x, y) {
                assert(area.has(x, y));
                return false;
            }
            x += 1;
        }
        y += 1;
    }
    true
}

/// The colour that `ratatui::buffer::Cell::reset` gives a cell, in front and behind.
pub uninterp spec fn reset_color(face: CellFace) -> Color;

/// What is left of a cell that is blanked: one space in the colour of a reset cell, without
/// modifiers.
pub open spec fn blank_face(face: CellFace) -> CellFace {
    CellFace {
        symbol: seq![' '],
        fg: reset_color(face),
        bg: reset_color(face),
        modifiers: 0,
        skip: false,
    }
}

/// The cells of a frame once those of `area` are blank.
pub open spec fn cleared(before: Cells, area: Rect) -> Cells {
    before.map_entries(
        |at: (u16, u16), face: CellFace|
            if area.has(at.0, at.1) {
                blank_face(face)
            } else {
                face
            },
    )
}

/// `ratatui::widgets::Clear`: resets every cell of `area`, and leaves the others alone. A cell
/// that was reset holds one space without modifiers, has one colour in front and behind, and is
/// not skipped. All of them look the same. That the colour is the terminal's own is not spelled
/// out, as a colour is opaque here.
#[verifier::external_body]
fn clear_area(buffer: &mut Buffer, area: Rect)
    requires
        covers(cells(*old(buffer)), area),
    ensures
        same_outside(cells(*old(buffer)), cells(*final(buffer)), area),
        forall|x: u16, y: u16| #[trigger]
            area.has(x, y) ==> {
                &&& cells(*final(buffer))[(x, y)].symbol == seq![' ']
                &&& cells(*final(buffer))[(x, y)].fg == reset_color(cells(*old(buffer))[(x, y)])
                &&& cells(*final(buffer))[(x, y)].bg == reset_color(cells(*old(buffer))[(x, y)])
                &&& cells(*final(buffer))[(x, y)].modifiers == 0
                &&& !cells(*final(buffer))[(x, y)].skip
            },
        forall|x: u16, y: u16, u: u16, v: u16| #[trigger]
            area.has(x, y) && #[trigger] area.has(u, v) ==> cells(*final(buffer))[(x, y)] == cells(
                *final(buffer),
            )[(u, v)],
{
    let Rect { x, y, width, height } = area;
    let area = ratatui::layout::Rect { x, y, width, height };
    ratatui::widgets::Widget::render(ratatui::widgets::Clear, area, buffer)
}

/// Blanks every cell of `area`: each holds a space without modifiers, and all look the same.
pub fn blank_out(buffer: &mut Buffer, area: Rect)
    requires
        covers(cells(*old(buffer)), area),
    ensures
        cells(*final(buffer)) == cleared(cells(*old(buffer)), area),
        forall|x: u16, y: u16| #[trigger]
            area.has(x, y) ==> {
                &&& cells(*final(buffer))[(x, y)].symbol == seq![' ']
                &&& cells(*final(buffer))[(x, y)].modifiers == 0
                &&& !cells(*final(buffer))[(x, y)].skip
            },
        forall|x: u16, y: u16, u: u16, v: u16| #[trigger]
            area.has(x, y) && #[trigger] area.has(u, v) ==> cells(*final(buffer))[(x, y)] == cells(
                *final(buffer),
            )[(u, v)],
{
    let ghost before = cells(*buffer);
    clear_area(buffer, area);
    assert(cells(*buffer) =~= cleared(before, area)) by {
        assert forall|at: (u16, u16)| before.contains_key(at) implies cells(*buffer)[at]
            == cleared(before, area)[at] by {
            if area.has(at.0, at.1) {
                assert(cells(*buffer)[(at.0, at.1)] == blank_face(before[(at.0, at.1)]));
            }
        }
    }
}

/// A cell drawn over in `style`: colours that are set replace its own, and modifiers add up.
pub open spec fn styled(face: CellFace, style: Style) -> CellFace {
    CellFace {
        fg: match style.fg {
            Some(fg) => fg,
            None => face.fg,
        },
        bg: match style.bg {
            Some(bg) => bg,
            None => face.bg,
        },
        modifiers: face.modifiers | style.modifiers,
        ..face
    }
}

/// The line that a single border round `area` draws at `(x, y)`, if it lies on the border.
pub open spec fn border_symbol(area: Rect, x: u16, y: u16) -> Option<char> {
    let left = x == area.x;
    let top = y == area.y;
    let right = x == area.right_end() - 1;
    let bottom = y == area.bottom_end() - 1;
    if left && top {
        Some('┌')
    } else if left && bottom {
        Some('└')
    } else if right && top {
        Some('┐')
    } else if right && bottom {
        Some('┘')
    } else if top || bottom {
        Some('─')
    } else if left || right {
        Some('│')
    } else {
        None
    }
}

/// A cell of a panel over `area`: in the panel's style, and on the border a line in the border's.
pub open spec fn panel_face(
    face: CellFace,
    area: Rect,
    x: u16,
    y: u16,
    border: Style,
    style: Style,
) -> CellFace {
    match border_symbol(area, x, y) {
        Some(symbol) => CellFace {
            symbol: seq![symbol],
            ..styled(styled(face, style), border)
        },
        None => styled(face, style),
    }
}

/// The cells of a frame once a bordered panel is drawn over `area`.
pub open spec fn panel_drawn(before: Cells, area: Rect, border: Style, style: Style) -> Cells {
    before.map_entries(
        |at: (u16, u16), face: CellFace|
            if area.has(at.0, at.1) {
                panel_face(face, area, at.0, at.1, border, style)
            } else {
                face
            },
    )
}

/// `ratatui::widgets::Block` with all borders: every cell of `area` takes `style`, those on its
/// edge show a single line in `border`, and the others are left alone.
#[verifier::external_body]
pub(crate) fn draw_panel(buffer: &mut Buffer, area: Rect, border: Style, style: Style)
    requires
        covers(cells(*old(buffer)), area),
    ensures
        cells(*final(buffer)) == panel_drawn(cells(*old(buffer)), area, border, style),
{
    let Rect { x, y, width, height } = area;
    let area = ratatui::layout::Rect { x, y, width, height };
    let [border, style] = [border, style].map(
        |s: Style| ratatui::style::Style {
            fg: s.fg,
            bg: s.bg,
            add_modifier: ratatui::style::Modifier::from_bits_retain(s.modifiers),
            ..ratatui::style::Style::default()
        });
    let block = ratatui::widgets::Block::default().borders(ratatui::widgets::Borders::ALL);
    let block = block.border_style(border).style(style);
    ratatui::widgets::Widget::render(block, area, buffer)
}

/// What is left of `area` inside a border round it.
pub open spec fn inside_border(area: Rect) -> Rect {
    Rect {
        x: least(area.x + 1, area.right_end()) as u16,
        y: least(area.y + 1, area.bottom_end()) as u16,
        width: minus(area.width as int, 2) as u16,
        height: minus(area.height as int, 2) as u16,
    }
}

/// `ratatui::widgets::Block::inner` with all borders: what is left of `area` inside them, one
/// cell less on each side as far as there are any.
#[verifier::external_body]
pub(crate) fn panel_inner(area: Rect) -> (inner: Rect)
    ensures
        inner == inside_border(area),
{
    let Rect { x, y, width, height } = area;
    let area = ratatui::layout::Rect { x, y, width, height };
    let inner = ratatui::widgets::Block::default().borders(ratatui::widgets::Borders::ALL).inner(area);
    Rect { x: inner.x, y: inner.y, width: inner.width, height: inner.height }
}

/// How many bytes the spans of a line have.
pub open spec fn line_bytes(spans: Seq<SpanView>) -> int
    decreases spans.len(),
{
    if spans.len() == 0 {
        0
    } else {
        line_bytes(spans.drop_last()) + byte_len(spans.last().content)
    }
}

/// The graphemes of a text, as `ratatui::text::Span::styled_graphemes` divides it.
pub uninterp spec fn graphemes_of(text: Seq<char>) -> Seq<Seq<char>>;

/// `ratatui::text::Span::styled_graphemes`: divides `text` as a widget divides it that draws it.
/// Where one grapheme ends and the next begins is not stated.
#[verifier::external_body]
fn graphemes(text: &str) -> (graphemes: Vec<String>)
    ensures
        texts_view(graphemes@) == graphemes_of(text@),
{
    let span = ratatui::text::Span::raw(text);
    let graphemes = span.styled_graphemes(ratatui::style::Style::default());
    graphemes.map(|grapheme| grapheme.symbol.to_owned()).collect()
}

/// How many columns a text takes, as `ratatui::text::Span::width` counts them.
pub uninterp spec fn columns_of(text: Seq<char>) -> usize;

/// `ratatui::text::Span::width`: how many columns `text` takes. Which character takes how many is
/// not stated.
#[verifier::external_body]
fn columns(text: &str) -> (columns: usize)
    ensures
        columns == columns_of(text@),
{
    ratatui::text::Span::raw(text).width()
}

/// Whether the columns of `grapheme` can be counted in sixteen bits, and, unless it is too wide to
/// be drawn at all, still can be when it comes after up to `width` columns.
pub open spec fn grapheme_fits(width: u16, grapheme: Seq<char>) -> bool {
    ||| width + columns_of(grapheme) <= u16::MAX
    ||| width < columns_of(grapheme) <= u16::MAX
}

/// Whether no grapheme of `span` can carry a count of columns past sixteen bits when it is drawn
/// after up to `width` columns. An ASCII character takes one column at most, and any text takes no
/// more columns than it has bytes.
pub open spec fn span_fits(width: u16, span: SpanView) -> bool {
    ||| is_ascii_chars(span.content) && width < u16::MAX
    ||| width + byte_len(span.content) <= u16::MAX
    ||| forall|j: int|
        0 <= j < graphemes_of(span.content).len() ==> grapheme_fits(
            width,
            #[trigger] graphemes_of(span.content)[j],
        )
}

/// Whether the columns of a line that is cut off at `width` can be counted in sixteen bits: the
/// line is short, or each of its spans fits after any number of columns up to there.
pub open spec fn line_fits(width: u16, spans: Seq<SpanView>) -> bool {
    ||| line_bytes(spans) <= u16::MAX
    ||| forall|i: int| 0 <= i < spans.len() ==> span_fits(width, #[trigger] spans[i])
}

/// Whether each grapheme of `text` can be counted after up to `width` columns.
fn graphemes_fit(width: u16, text: &str) -> (fit: bool)
    ensures
        fit == (forall|j: int|
            0 <= j < graphemes_of(text@).len() ==> grapheme_fits(
                width,
                #[trigger] graphemes_of(text@)[j],
            )),
{
    let parts = graphemes(text);
    let ghost all = graphemes_of(text@);
    let most: usize = u16::MAX as usize;
    let mut j: usize = 0;
    while j < parts.len()
        invariant
            j <= parts@.len(),
            most == u16::MAX,
            texts_view(parts@) == all,
            all == graphemes_of(text@),
            forall|k: int| 0 <= k < j ==> grapheme_fits(width, #[trigger] all[k]),
        decreases parts@.len() - j,
    {
        let wide = columns(parts[j].as_str());
        assert(all[j as int] == parts@[j as int]@);
        if wide > most || (wide <= width as usize && wide > most - width as usize) {
            assert(!grapheme_fits(width, all[j as int]));
            return false;
        }
        j += 1;
    }
    true
}

/// Whether the columns of a line that is cut off at `width` can be counted in sixteen bits.
pub fn line_fits_width(width: u16, spans: &Vec<Span>) -> (fits: bool)
    ensures
        fits == line_fits(width, spans_view(spans@)),
{
    let ghost all = spans_view(spans@);
    let most: usize = u16::MAX as usize;
    let mut short: bool = true;
    let mut bytes: usize = 0;
    let mut each: bool = true;
    let mut i: usize = 0;
    while i < spans.len()
        invariant
            i <= spans@.len(),
            all == spans_view(spans@),
            most == u16::MAX,
            short ==> bytes == line_bytes(all.take(i as int)) && bytes <= most,
            !short ==> line_bytes(all.take(i as int)) > most,
            each == (forall|j: int| 0 <= j < i ==> span_fits(width, #[trigger] all[j])),
        decreases spans@.len() - i,
    {
        let content = spans[i].content.as_str();
        let len: usize = content.len();
        proof {
            let upto = all.take(i + 1);
            assert(upto.drop_last() == all.take(i as int));
            assert(upto.last() == all[i as int]);
            assert(all[i as int].content == content@);
            assert(len == byte_len(content@));
        }
        if short && len <= most - bytes {
            bytes += len;
        } else {
            short = false;
        }
        let fits = (content.is_ascii() && width < u16::MAX) || len <= most - width as usize
            || graphemes_fit(width, content);
        assert(fits == span_fits(width, all[i as int]));
        if !fits {
            each = false;
        }
        i += 1;
    }
    assert(all.take(i as int) == all);
    short || each
}

/// Whether `c` is a grapheme of its own that takes one column, whatever such characters it stands
/// between: the printable ASCII characters, and the bullet.
pub open spec fn is_plain_char(c: char) -> bool {
    ' ' <= c <= '~' || c == '●'
}

/// Whether every character of `text` is a grapheme of its own that takes one column.
pub open spec fn is_plain(text: Seq<char>) -> bool {
    forall|i: int| 0 <= i < text.len() ==> is_plain_char(#[trigger] text[i])
}

/// Whether every character of a line is a grapheme of its own that takes one column.
pub open spec fn is_plain_line(spans: Seq<SpanView>) -> bool {
    forall|i: int| 0 <= i < spans.len() ==> is_plain((#[trigger] spans[i]).content)
}

/// The characters of a line, each with its style.
pub open spec fn line_chars(spans: Seq<SpanView>) -> Seq<(char, Style)>
    decreases spans.len(),
{
    if spans.len() == 0 {
        Seq::empty()
    } else {
        let last = spans.last();
        line_chars(spans.drop_last()) + Seq::new(
            last.content.len(),
            |i: int| (last.content[i], last.style),
        )
    }
}

/// A cell drawn over with a character.
pub open spec fn written(face: CellFace, c: char, style: Style) -> CellFace {
    CellFace { symbol: seq![c], ..styled(face, style) }
}

/// The cells of a frame once characters of one column each are written into the first row of
/// `area`, one to a cell, as far as it goes.
pub open spec fn chars_drawn(before: Cells, area: Rect, chars: Seq<(char, Style)>) -> Cells {
    before.map_entries(
        |at: (u16, u16), face: CellFace|
            if area.has(at.0, at.1) && at.1 == area.y && at.0 - area.x < chars.len() {
                written(face, chars[at.0 - area.x].0, chars[at.0 - area.x].1)
            } else {
                face
            },
    )
}

/// The cells of a frame once a line of text is drawn from the left of `area`, as far as it goes:
/// what `ratatui::widgets::Paragraph` makes of the frame, grapheme by grapheme.
pub uninterp spec fn line_drawn(
    before: Map<(u16, u16), CellFace>,
    area: Rect,
    spans: Seq<SpanView>,
) -> Map<(u16, u16), CellFace>;

/// The cells of a frame once a line of text is drawn from the left of `area`, as far as it goes:
/// one character to a cell where they are plain, and else grapheme by grapheme.
pub open spec fn line_shown(before: Cells, area: Rect, spans: Seq<SpanView>) -> Cells {
    if is_plain_line(spans) {
        chars_drawn(before, area, line_chars(spans))
    } else {
        line_drawn(before, area, spans)
    }
}

/// `ratatui::widgets::Paragraph` of one line: draws `spans` into `area`, cut off at its right end,
/// and leaves the cells outside it alone. A plain character is a grapheme of one column, so a line
/// of them is written one character to a cell, each over the cell that was there.
///
/// The widget counts columns in sixteen bits while it cuts the line off. So that no count
/// overflows, the line must fit, which rests on the widths that `unicode_width` gives: none exceeds
/// the number of bytes, nor one for an ASCII character. How other text divides into graphemes, and
/// how many columns each takes, is not stated.
#[verifier::external_body]
pub(crate) fn draw_line(buffer: &mut Buffer, area: Rect, spans: Vec<Span>)
    requires
        covers(cells(*old(buffer)), area),
        area.in_range(),
        line_fits(area.width, spans_view(spans@)),
    ensures
        cells(*final(buffer)) == line_drawn(cells(*old(buffer)), area, spans_view(spans@)),
        same_outside(cells(*old(buffer)), cells(*final(buffer)), area),
        is_plain_line(spans_view(spans@)) ==> cells(*final(buffer)) == chars_drawn(
            cells(*old(buffer)),
            area,
            line_chars(spans_view(spans@)),
        ),
{
    let Rect { x, y, width, height } = area;
    let area = ratatui::layout::Rect { x, y, width, height };
    let spans = spans.into_iter().map(
        |s: Span| ratatui::text::Span::styled(s.content, ratatui::style::Style {
            fg: s.style.fg,
            bg: s.style.bg,
            add_modifier: ratatui::style::Modifier::from_bits_retain(s.style.modifiers),
            ..ratatui::style::Style::default()
        }));
    let line = ratatui::text::Line::from(spans.collect::<Vec<_>>());
    ratatui::widgets::Widget::render(ratatui::widgets::Paragraph::new(line), area, buffer)
}

/// Cells cover an area exactly if there is one in each of its columns and rows.
pub proof fn law_what_covers_an_area(cells: Cells, area: Rect)
    requires
        area.x + area.width <= u16::MAX,
        area.y + area.height <= u16::MAX,
    ensures
        covers(cells, area) <==> forall|x: u16, y: u16|
            area.x <= x < area.x + area.width && area.y <= y < area.y + area.height
                ==> #[trigger] cells.contains_key((x, y)),
{
    if covers(cells, area) {
        assert forall|x: u16, y: u16|
            area.x <= x < area.x + area.width && area.y <= y < area.y + area.height implies
            #[trigger] cells.contains_key((x, y)) by {
            assert(area.has(x, y));
        }
    }
}

/// Where only an area changes, a cell left of it, right of it, above it or below it stays.
pub proof fn law_cells_beside_an_area_stay(
    before: Cells,
    after: Cells,
    area: Rect,
    x: u16,
    y: u16,
)
    requires
        same_outside(before, after, area),
        before.contains_key((x, y)),
        x < area.x || x >= area.x + area.width || y < area.y || y >= area.y + area.height,
    ensures
        after.contains_key((x, y)),
        after[(x, y)] == before[(x, y)],
{
    assert(!area.has(x, y));
}

/// A blanked cell shows a space without modifiers, whatever it showed. Cells beside the area that
/// is blanked stay.
pub proof fn law_blanking(before: Cells, area: Rect, x: u16, y: u16)
    requires
        area.x + area.width <= u16::MAX,
        area.y + area.height <= u16::MAX,
        before.contains_key((x, y)),
    ensures
        ({
            let after = cleared(before, area)[(x, y)];
            if area.x <= x < area.x + area.width && area.y <= y < area.y + area.height {
                after.symbol == seq![' '] && after.modifiers == 0 && !after.skip && after.fg
                    == after.bg
            } else {
                after == before[(x, y)]
            }
        }),
{
}

/// A span says what it holds.
pub proof fn law_a_span_says_what_it_holds(spans: Seq<Span>, i: int)
    requires
        0 <= i < spans.len(),
    ensures
        spans_view(spans).len() == spans.len(),
        spans_view(spans)[i].content == spans[i].content@,
        spans_view(spans)[i].style == spans[i].style,
{
}

/// A line of ASCII text fits into any width but the largest, however long it is.
pub proof fn law_ascii_lines_fit(width: u16, spans: Seq<SpanView>)
    requires
        width < u16::MAX,
        forall|i: int, j: int|
            #![trigger spans[i].content[j]]
            0 <= i < spans.len() && 0 <= j < spans[i].content.len() ==> '\0'
                <= spans[i].content[j] <= '\u{7f}',
    ensures
        line_fits(width, spans),
{
    assert forall|i: int| 0 <= i < spans.len() implies span_fits(width, #[trigger] spans[i]) by {
        assert(is_ascii_chars(spans[i].content));
    }
}

/// A line of one span fits into any width if it has no more bytes than sixteen bits count.
pub proof fn law_short_lines_fit(width: u16, span: SpanView)
    requires
        encode_utf8(span.content).len() <= u16::MAX,
    ensures
        line_fits(width, seq![span]),
{
    reveal_with_fuel(line_bytes, 2);
    assert(line_bytes(seq![span]) == byte_len(span.content));
}

/// A line of one span with a grapheme of more columns than sixteen bits count does not fit, unless
/// it is ASCII text or has few bytes.
pub proof fn law_uncountable_lines_do_not_fit(width: u16, span: SpanView, j: int, k: int)
    requires
        0 <= j < graphemes_of(span.content).len(),
        columns_of(graphemes_of(span.content)[j]) > u16::MAX,
        0 <= k < span.content.len(),
        span.content[k] > '\u{7f}',
        u16::MAX < encode_utf8(span.content).len() <= usize::MAX,
    ensures
        !line_fits(width, seq![span]),
{
    reveal_with_fuel(line_bytes, 2);
    assert(line_bytes(seq![span]) == byte_len(span.content));
    assert(!grapheme_fits(width, graphemes_of(span.content)[j]));
    assert(!is_ascii_chars(span.content));
    assert(!span_fits(width, seq![span][0]));
}

} // verus!
