//! The small overlays of the interface: the note that something was copied, and the lines that
//! tell of faults in the configuration.

use ratatui::buffer::Buffer;
use vstd::prelude::*;
use vstd::string::*;
use vstd::utf8::{encode_utf8, is_ascii_chars, is_ascii_chars_encode_utf8};

use crate::geometry::{clamped_rect, least, minus, Rect};
use crate::screen::{
    blank_face, blank_out, border_symbol, cells, cleared, covers, covers_area, draw_line,
    draw_panel, inside_border, is_plain, is_plain_line, line_bytes, line_chars, line_drawn,
    line_fits, line_fits_width, line_shown, panel_drawn, panel_face, panel_inner, same_outside,
    span_fits, spans_view, CellFace, Cells, Span, SpanView, Style, BOLD,
};
use crate::status::Palette;
use crate::text::{
    byte_len, is_blank, is_white_space, law_a_line_that_shows_something_is_kept,
    law_lines_hold_no_newline, law_spoken_lines_are_not_blank, lines, spoken, spoken_lines,
    texts_view,
};

verus! {

/// The note that something was copied.
pub struct CopyFeedback {
    pub message: String,
}

/// Where the note goes.
#[derive(Debug, Clone, Copy, PartialEq, Eq, Structural)]
pub enum ToastClipboardPosition {
    TopLeft,
    TopCenter,
    TopRight,
    BottomLeft,
    BottomCenter,
    BottomRight,
}

impl ToastClipboardPosition {
    /// Whether the note goes to the top of its area.
    pub open spec fn is_top(self) -> bool {
        match self {
            ToastClipboardPosition::TopLeft => true,
            ToastClipboardPosition::TopCenter => true,
            ToastClipboardPosition::TopRight => true,
            ToastClipboardPosition::BottomLeft => false,
            ToastClipboardPosition::BottomCenter => false,
            ToastClipboardPosition::BottomRight => false,
        }
    }
}

/// The width that the note asks for: the length of its message in bytes, reduced to sixteen bits,
/// and what the border and the bullet take.
pub open spec fn feedback_content_width(message: Seq<char>) -> int {
    byte_len(message) as u16 + 4
}

/// How wide the note is: what it asks for, but no more than `area` is wide.
pub open spec fn feedback_width(area: Rect, message: Seq<char>) -> int {
    least(feedback_content_width(message), area.width as int)
}

/// How high the note is: a line of text in a border, but no more than `area` is high.
pub open spec fn feedback_height(area: Rect) -> int {
    least(3, area.height as int)
}

/// The first column of a note that is `width` wide.
pub open spec fn feedback_x(area: Rect, width: int, position: ToastClipboardPosition) -> int {
    match position {
        ToastClipboardPosition::TopLeft => area.x as int,
        ToastClipboardPosition::BottomLeft => area.x as int,
        ToastClipboardPosition::TopCenter => area.x + minus(area.width as int, width) / 2,
        ToastClipboardPosition::BottomCenter => area.x + minus(area.width as int, width) / 2,
        ToastClipboardPosition::TopRight => area.x + minus(area.width as int, width),
        ToastClipboardPosition::BottomRight => area.x + minus(area.width as int, width),
    }
}

/// The first row of a note that is `height` high and `offset_rows` away from its edge of `area`.
pub open spec fn feedback_y(
    area: Rect,
    height: int,
    offset_rows: int,
    position: ToastClipboardPosition,
) -> int {
    if position.is_top() {
        area.y + least(offset_rows, area.height as int)
    } else {
        area.y + minus(area.height as int, height + offset_rows)
    }
}

/// Whether all that is computed to place the note stays within `u16`.
pub open spec fn feedback_fits(
    area: Rect,
    message: Seq<char>,
    offset_rows: u16,
    position: ToastClipboardPosition,
) -> bool {
    area.width == 0 || area.height == 0 || {
        let width = feedback_width(area, message);
        let height = feedback_height(area);
        &&& feedback_content_width(message) <= u16::MAX
        &&& feedback_x(area, width, position) <= u16::MAX
        &&& feedback_y(area, height, offset_rows as int, position) <= u16::MAX
        &&& !position.is_top() ==> height + offset_rows <= u16::MAX
    }
}

/// Where the note goes in `area`.
pub open spec fn feedback_area(
    area: Rect,
    message: Seq<char>,
    offset_rows: u16,
    position: ToastClipboardPosition,
) -> Rect {
    if area.width == 0 || area.height == 0 {
        Rect { x: 0, y: 0, width: 0, height: 0 }
    } else {
        let width = feedback_width(area, message);
        let height = feedback_height(area);
        clamped_rect(
            feedback_x(area, width, position) as u16,
            feedback_y(area, height, offset_rows as int, position) as u16,
            width as u16,
            height as u16,
        )
    }
}

/// Where the note goes in `area`: at the edge that `position` names, `offset_rows` away from it.
pub fn copy_feedback_rect(
    area: Rect,
    feedback: &CopyFeedback,
    offset_rows: u16,
    position: ToastClipboardPosition,
) -> (rect: Rect)
    requires
        feedback_fits(area, feedback.message@, offset_rows, position),
    ensures
        rect == feedback_area(area, feedback.message@, offset_rows, position),
{
    if area.is_empty() {
        return Rect { x: 0, y: 0, width: 0, height: 0 };
    }
    let message_len: u16 = #[verifier::truncate]
    (feedback.message.as_str().len() as u16);
    let content_width: u16 = message_len + 4;
    let width: u16 = if content_width <= area.width {
        content_width
    } else {
        area.width
    };
    let height: u16 = if 3 <= area.height {
        3
    } else {
        area.height
    };
    let x: u16 = match position {
        ToastClipboardPosition::TopLeft | ToastClipboardPosition::BottomLeft => area.x,
        ToastClipboardPosition::TopCenter | ToastClipboardPosition::BottomCenter => {
            area.x + area.width.saturating_sub(width) / 2
        },
        ToastClipboardPosition::TopRight | ToastClipboardPosition::BottomRight => {
            area.x + area.width.saturating_sub(width)
        },
    };
    let y: u16 = match position {
        ToastClipboardPosition::TopLeft
        | ToastClipboardPosition::TopCenter
        | ToastClipboardPosition::TopRight => {
            area.y + if offset_rows <= area.height {
                offset_rows
            } else {
                area.height
            }
        },
        ToastClipboardPosition::BottomLeft
        | ToastClipboardPosition::BottomCenter
        | ToastClipboardPosition::BottomRight => {
            area.y + area.height.saturating_sub(height + offset_rows)
        },
    };
    Rect::new(x, y, width, height)
}

/// Whether all that is computed to place the note stays within `u16`.
pub fn copy_feedback_fits(
    area: Rect,
    feedback: &CopyFeedback,
    offset_rows: u16,
    position: ToastClipboardPosition,
) -> (fits: bool)
    ensures
        fits == feedback_fits(area, feedback.message@, offset_rows, position),
{
    if area.is_empty() {
        return true;
    }
    let most: u32 = u16::MAX as u32;
    let message_len: u16 = #[verifier::truncate]
    (feedback.message.as_str().len() as u16);
    let content_width: u32 = message_len as u32 + 4;
    let area_width: u32 = area.width as u32;
    let area_height: u32 = area.height as u32;
    let rows: u32 = offset_rows as u32;
    let spare: u32 = area_width.saturating_sub(content_width);
    let height: u32 = if 3 <= area_height {
        3
    } else {
        area_height
    };
    let x: u32 = match position {
        ToastClipboardPosition::TopLeft | ToastClipboardPosition::BottomLeft => area.x as u32,
        ToastClipboardPosition::TopCenter | ToastClipboardPosition::BottomCenter => {
            area.x as u32 + spare / 2
        },
        ToastClipboardPosition::TopRight | ToastClipboardPosition::BottomRight => {
            area.x as u32 + spare
        },
    };
    let y: u32 = match position {
        ToastClipboardPosition::TopLeft
        | ToastClipboardPosition::TopCenter
        | ToastClipboardPosition::TopRight => {
            area.y as u32 + if rows <= area_height {
                rows
            } else {
                area_height
            }
        },
        ToastClipboardPosition::BottomLeft
        | ToastClipboardPosition::BottomCenter
        | ToastClipboardPosition::BottomRight => {
            if height + rows > most {
                return false;
            }
            area.y as u32 + area_height.saturating_sub(height + rows)
        },
    };
    content_width <= most && x <= most && y <= most
}

/// The border of the note.
pub open spec fn feedback_border(palette: Palette) -> Style {
    Style { fg: Some(palette.green), bg: None, modifiers: 0 }
}

/// The ground of the note.
pub open spec fn feedback_ground(palette: Palette) -> Style {
    Style { fg: None, bg: Some(palette.panel_bg), modifiers: 0 }
}

/// The text of the note: a bullet, a space, and the message in bold.
pub open spec fn feedback_spans(message: Seq<char>, palette: Palette) -> Seq<SpanView> {
    seq![
        SpanView {
            content: "●"@,
            style: Style { fg: Some(palette.green), bg: Some(palette.panel_bg), modifiers: 0 },
        },
        SpanView { content: " "@, style: Style { fg: None, bg: None, modifiers: 0 } },
        SpanView {
            content: message,
            style: Style { fg: Some(palette.text), bg: Some(palette.panel_bg), modifiers: BOLD },
        },
    ]
}

/// The cells of a frame once the note is drawn at `place`: a bordered panel on blank cells, with
/// the text inside where the panel is high enough to hold it.
pub open spec fn feedback_drawn(
    before: Cells,
    place: Rect,
    message: Seq<char>,
    palette: Palette,
) -> Cells {
    if place.width == 0 || place.height == 0 {
        before
    } else {
        let panel = panel_drawn(
            cleared(before, place),
            place,
            feedback_border(palette),
            feedback_ground(palette),
        );
        if inside_border(place).height == 0 {
            panel
        } else {
            line_shown(panel, inside_border(place), feedback_spans(message, palette))
        }
    }
}

/// Whether the note can be drawn at `place`: there are cells to draw on, and the columns of its
/// text can be counted.
pub open spec fn feedback_drawable(
    before: Cells,
    place: Rect,
    message: Seq<char>,
    palette: Palette,
) -> bool {
    &&& covers(before, place)
    &&& inside_border(place).height > 0 ==> line_fits(
        inside_border(place).width,
        feedback_spans(message, palette),
    )
}

/// The text of the note.
fn note_spans(feedback: &CopyFeedback, palette: &Palette) -> (text: Vec<Span>)
    ensures
        spans_view(text@) == feedback_spans(feedback.message@, *palette),
{
    let mut text: Vec<Span> = Vec::new();
    text.push(
        Span {
            content: "●".to_owned(),
            style: Style { fg: Some(palette.green), bg: Some(palette.panel_bg), modifiers: 0 },
        },
    );
    text.push(
        Span { content: " ".to_owned(), style: Style { fg: None, bg: None, modifiers: 0 } },
    );
    text.push(
        Span {
            content: feedback.message.clone(),
            style: Style { fg: Some(palette.text), bg: Some(palette.panel_bg), modifiers: BOLD },
        },
    );
    assert(spans_view(text@) =~= feedback_spans(feedback.message@, *palette));
    text
}

/// A cell on the border of the note: a line on the note's ground, and nothing of what was there.
pub open spec fn note_border_face(place: Rect, x: u16, y: u16, palette: Palette) -> CellFace {
    CellFace {
        symbol: seq![border_symbol(place, x, y)->0],
        fg: palette.green,
        bg: palette.panel_bg,
        modifiers: 0,
        skip: false,
    }
}

/// Whether a frame differs from the one before in nothing but the cells of `place`, and shows a
/// border there all round the text.
pub open spec fn note_framed(before: Cells, after: Cells, place: Rect, palette: Palette) -> bool {
    &&& same_outside(before, after, place)
    &&& forall|x: u16, y: u16| #[trigger]
        place.has(x, y) && !inside_border(place).has(x, y) ==> {
            &&& border_symbol(place, x, y) is Some
            &&& after[(x, y)] == note_border_face(place, x, y, palette)
        }
}

/// A cell inside the border of the note, over a cell that looked like `face`: on the note's ground,
/// and in the first row a bullet, a space, and the message in bold, one character to a cell.
pub open spec fn note_text_face(
    face: CellFace,
    inner: Rect,
    x: u16,
    y: u16,
    message: Seq<char>,
    palette: Palette,
) -> CellFace {
    let at = x - inner.x;
    let empty = CellFace { bg: palette.panel_bg, ..blank_face(face) };
    if y != inner.y {
        empty
    } else if at == 0 {
        CellFace { symbol: seq!['●'], fg: palette.green, ..empty }
    } else if 2 <= at < 2 + message.len() {
        CellFace { symbol: seq![message[at - 2]], fg: palette.text, modifiers: BOLD, ..empty }
    } else {
        empty
    }
}

/// Whether a frame shows a message inside the border of the note, where the message is plain.
pub open spec fn note_written(
    before: Cells,
    after: Cells,
    place: Rect,
    message: Seq<char>,
    palette: Palette,
) -> bool {
    is_plain(message) ==> forall|x: u16, y: u16| #[trigger]
        inside_border(place).has(x, y) ==> after[(x, y)] == note_text_face(
            before[(x, y)],
            inside_border(place),
            x,
            y,
            message,
            palette,
        )
}

/// Draws the note that something was copied.
pub fn render_copy_feedback_buffer(
    buffer: &mut Buffer,
    area: Rect,
    feedback: &CopyFeedback,
    offset_rows: u16,
    position: ToastClipboardPosition,
    palette: &Palette,
)
    requires
        feedback_fits(area, feedback.message@, offset_rows, position),
        feedback_drawable(
            cells(*old(buffer)),
            feedback_area(area, feedback.message@, offset_rows, position),
            feedback.message@,
            *palette,
        ),
    ensures
        cells(*final(buffer)) == feedback_drawn(
            cells(*old(buffer)),
            feedback_area(area, feedback.message@, offset_rows, position),
            feedback.message@,
            *palette,
        ),
        note_framed(
            cells(*old(buffer)),
            cells(*final(buffer)),
            feedback_area(area, feedback.message@, offset_rows, position),
            *palette,
        ),
        note_written(
            cells(*old(buffer)),
            cells(*final(buffer)),
            feedback_area(area, feedback.message@, offset_rows, position),
            feedback.message@,
            *palette,
        ),
{
    let place = copy_feedback_rect(area, feedback, offset_rows, position);
    if place.is_empty() {
        return;
    }
    let ghost before = cells(*buffer);
    blank_out(buffer, place);
    let inner = panel_inner(place);
    draw_panel(
        buffer,
        place,
        Style { fg: Some(palette.green), bg: None, modifiers: 0 },
        Style { fg: None, bg: Some(palette.panel_bg), modifiers: 0 },
    );
    proof {
        lemma_note_panel(before, place, *palette);
    }
    if inner.height == 0 {
        return;
    }
    let ghost panel = cells(*buffer);
    let text = note_spans(feedback, palette);
    proof {
        lemma_inside_border(place);
    }
    draw_line(buffer, inner, text);
    assert(note_framed(before, cells(*buffer), place, *palette)) by {
        let after = cells(*buffer);
        assert(same_outside(panel, after, inner));
        assert forall|x: u16, y: u16|
            before.contains_key((x, y)) && !place.has(x, y) implies #[trigger] after[(x, y)]
            == before[(x, y)] by {
            assert(!inner.has(x, y));
            assert(after[(x, y)] == panel[(x, y)]);
        }
        assert forall|x: u16, y: u16| #[trigger]
            place.has(x, y) && !inner.has(x, y) implies after[(x, y)] == panel[(x, y)] by {
            assert(panel.contains_key((x, y)));
        }
    }
    proof {
        lemma_note_text(before, place, feedback.message@, *palette);
    }
}

/// A panel on blank cells frames a note.
proof fn lemma_note_panel(before: Cells, place: Rect, palette: Palette)
    requires
        covers(before, place),
    ensures
        note_framed(
            before,
            panel_drawn(
                cleared(before, place),
                place,
                feedback_border(palette),
                feedback_ground(palette),
            ),
            place,
            palette,
        ),
        covers(
            panel_drawn(
                cleared(before, place),
                place,
                feedback_border(palette),
                feedback_ground(palette),
            ),
            place,
        ),
{
    let blank = cleared(before, place);
    let panel = panel_drawn(blank, place, feedback_border(palette), feedback_ground(palette));
    assert(panel.dom() =~= before.dom());
    assert(0u16 | 0u16 == 0u16) by (bit_vector);
    assert forall|x: u16, y: u16| #[trigger] before.contains_key((x, y)) implies panel[(x, y)]
        == if place.has(x, y) {
        panel_face(
            blank_face(before[(x, y)]),
            place,
            x,
            y,
            feedback_border(palette),
            feedback_ground(palette),
        )
    } else {
        before[(x, y)]
    } by {
        assert(blank.contains_key((x, y)));
    }
    assert forall|x: u16, y: u16| #[trigger]
        place.has(x, y) && !inside_border(place).has(x, y) implies border_symbol(
        place,
        x,
        y,
    ) is Some && panel[(x, y)] == note_border_face(place, x, y, palette) by {
        assert(before.contains_key((x, y)));
    }
}

/// A plain message is written into the panel of a note one character to a cell.
proof fn lemma_note_text(before: Cells, place: Rect, message: Seq<char>, palette: Palette)
    requires
        covers(before, place),
        place.in_range(),
        place.width > 0,
        place.height > 0,
    ensures
        note_written(
            before,
            feedback_drawn(before, place, message, palette),
            place,
            message,
            palette,
        ),
{
    let inner = inside_border(place);
    let spans = feedback_spans(message, palette);
    let blank = cleared(before, place);
    let panel = panel_drawn(blank, place, feedback_border(palette), feedback_ground(palette));
    if is_plain(message) && inner.height > 0 {
        reveal_strlit("●");
        reveal_strlit(" ");
        reveal_with_fuel(line_chars, 4);
        let after = feedback_drawn(before, place, message, palette);
        let chars = line_chars(spans);
        assert(is_plain_line(spans));
        assert(chars.len() == 2 + message.len());
        assert(chars[0] == ('●', spans[0].style));
        assert(chars[1] == (' ', spans[1].style));
        assert(forall|k: int|
            0 <= k < message.len() ==> chars[2 + k] == (message[k], spans[2].style));
        assert(0u16 | 0u16 == 0u16) by (bit_vector);
        assert(0u16 | 1u16 == 1u16) by (bit_vector);
        lemma_inside_border(place);
        assert forall|x: u16, y: u16| #[trigger] inner.has(x, y) implies after[(x, y)]
            == note_text_face(before[(x, y)], inner, x, y, message, palette) by {
            assert(place.has(x, y));
            assert(blank.contains_key((x, y)) && panel.contains_key((x, y)));
            assert(border_symbol(place, x, y) is None);
            let at = x - inner.x;
            if 2 <= at < 2 + message.len() {
                assert(chars[2 + (at - 2)] == (message[at - 2], spans[2].style));
            }
        }
    }
}

/// The cells inside a border lie in the bordered rectangle.
proof fn lemma_inside_border(area: Rect)
    requires
        area.in_range(),
        area.width > 0,
        area.height > 0,
    ensures
        inside_border(area).in_range(),
        forall|x: u16, y: u16| #[trigger] inside_border(area).has(x, y) ==> area.has(x, y),
{
}

/// Draws the note that something was copied, if it can be placed and drawn. Otherwise leaves the
/// buffer alone and returns false.
pub fn try_render_copy_feedback_buffer(
    buffer: &mut Buffer,
    area: Rect,
    feedback: &CopyFeedback,
    offset_rows: u16,
    position: ToastClipboardPosition,
    palette: &Palette,
) -> (drawn: bool)
    ensures
        ({
            let place = feedback_area(area, feedback.message@, offset_rows, position);
            &&& drawn == (feedback_fits(area, feedback.message@, offset_rows, position)
                && feedback_drawable(
                cells(*old(buffer)),
                place,
                feedback.message@,
                *palette,
            ))
            &&& cells(*final(buffer)) == if drawn {
                feedback_drawn(cells(*old(buffer)), place, feedback.message@, *palette)
            } else {
                cells(*old(buffer))
            }
            &&& drawn ==> note_framed(cells(*old(buffer)), cells(*final(buffer)), place, *palette)
            &&& drawn ==> note_written(
                cells(*old(buffer)),
                cells(*final(buffer)),
                place,
                feedback.message@,
                *palette,
            )
        }),
{
    if !copy_feedback_fits(area, feedback, offset_rows, position) {
        return false;
    }
    let place = copy_feedback_rect(area, feedback, offset_rows, position);
    let inner = panel_inner(place);
    if inner.height > 0 && !line_fits_width(inner.width, &note_spans(feedback, palette)) {
        return false;
    }
    if !covers_area(buffer, place) {
        return false;
    }
    render_copy_feedback_buffer(buffer, area, feedback, offset_rows, position, palette);
    true
}

/// A line of a diagnostic and where it goes.
pub struct DiagnosticRow {
    pub text: String,
    pub area: Rect,
}

/// A line with a space on either side.
pub open spec fn padded(line: Seq<char>) -> Seq<char> {
    seq![' '] + line + seq![' ']
}

/// How many lines of `message` are shown in `area`: those that are not blank, one to a row.
pub open spec fn diagnostic_count(area: Rect, message: Seq<char>) -> int {
    least(spoken(lines(message)).len() as int, area.height as int)
}

/// What row `i` of a diagnostic says.
pub open spec fn diagnostic_text(message: Seq<char>, i: int) -> Seq<char> {
    padded(spoken(lines(message))[i])
}

/// How wide row `i` of a diagnostic is: the length of its text in bytes, reduced to sixteen bits,
/// but no more than `area` is wide.
pub open spec fn diagnostic_width(area: Rect, message: Seq<char>, i: int) -> int {
    least(byte_len(diagnostic_text(message, i)) as u16 as int, area.width as int)
}

/// Where row `i` of a diagnostic goes: against the right edge of `area`, one row below another.
pub open spec fn diagnostic_area(area: Rect, message: Seq<char>, i: int) -> Rect {
    clamped_rect(
        (area.x + (area.width - diagnostic_width(area, message, i))) as u16,
        (area.y + i) as u16,
        diagnostic_width(area, message, i) as u16,
        1,
    )
}

/// Whether all that is computed to place the rows stays within `u16`.
pub open spec fn diagnostic_fits(area: Rect, message: Seq<char>) -> bool {
    forall|i: int|
        #![trigger diagnostic_text(message, i)]
        0 <= i < diagnostic_count(area, message) ==> area.x + (area.width - diagnostic_width(
            area,
            message,
            i,
        )) <= u16::MAX && area.y + i <= u16::MAX
}

/// The rows of a diagnostic in `area`.
pub fn config_diagnostic_rows(area: Rect, message: &str) -> (rows: Vec<DiagnosticRow>)
    requires
        diagnostic_fits(area, message@),
    ensures
        rows@.len() == diagnostic_count(area, message@),
        forall|i: int|
            #![trigger rows@[i]]
            0 <= i < rows@.len() ==> rows@[i].text@ == diagnostic_text(message@, i) && rows@[i].area
                == diagnostic_area(area, message@, i),
{
    let kept = spoken_lines(message);
    let mut rows: Vec<DiagnosticRow> = Vec::new();
    let mut row: u16 = 0;
    while row < area.height && (row as usize) < kept.len()
        invariant
            diagnostic_fits(area, message@),
            texts_view(kept@) == spoken(lines(message@)),
            row <= diagnostic_count(area, message@),
            rows@.len() == row,
            forall|i: int|
                #![trigger rows@[i]]
                0 <= i < row ==> rows@[i].text@ == diagnostic_text(message@, i) && rows@[i].area
                    == diagnostic_area(area, message@, i),
        decreases area.height - row,
    {
        let text = pad(&kept[row as usize]);
        assert(texts_view(kept@)[row as int] == kept@[row as int]@);
        assert(text@ == diagnostic_text(message@, row as int));
        let text_len: u16 = #[verifier::truncate]
        (text.as_str().len() as u16);
        let width: u16 = if text_len <= area.width {
            text_len
        } else {
            area.width
        };
        let place = Rect::new(
            area.x + area.width.saturating_sub(width),
            area.y + row,
            width,
            1,
        );
        rows.push(DiagnosticRow { text, area: place });
        row += 1;
    }
    rows
}

/// `line` with a space on either side.
fn pad(line: &String) -> (text: String)
    ensures
        text@ == padded(line@),
{
    let mut text = " ".to_owned();
    text.append(line.as_str());
    text.append(" ");
    proof {
        reveal_strlit(" ");
        assert(text@ =~= padded(line@));
    }
    text
}

/// How a diagnostic is written.
pub open spec fn diagnostic_style(palette: Palette) -> Style {
    Style {
        fg: Some(palette.panel_contrast_fg),
        bg: Some(palette.yellow),
        modifiers: BOLD,
    }
}

/// The text of row `i` of a diagnostic.
pub open spec fn diagnostic_spans(message: Seq<char>, palette: Palette, i: int) -> Seq<SpanView> {
    seq![SpanView { content: diagnostic_text(message, i), style: diagnostic_style(palette) }]
}

/// The text of a row.
fn row_spans(row: &DiagnosticRow, palette: &Palette) -> (text: Vec<Span>)
    ensures
        spans_view(text@) == seq![
            SpanView { content: row.text@, style: diagnostic_style(*palette) },
        ],
{
    let style = Style {
        fg: Some(palette.panel_contrast_fg),
        bg: Some(palette.yellow),
        modifiers: BOLD,
    };
    let mut text: Vec<Span> = Vec::new();
    text.push(Span { content: row.text.clone(), style });
    assert(spans_view(text@) =~= seq![
        SpanView { content: row.text@, style: diagnostic_style(*palette) },
    ]);
    text
}

/// The cells of a frame once the first `count` rows of a diagnostic are drawn on blank cells.
pub open spec fn diagnostics_drawn(
    before: Cells,
    area: Rect,
    message: Seq<char>,
    palette: Palette,
    count: int,
) -> Cells
    decreases count,
{
    if count <= 0 {
        before
    } else {
        let place = diagnostic_area(area, message, count - 1);
        line_shown(
            cleared(diagnostics_drawn(before, area, message, palette, count - 1), place),
            place,
            diagnostic_spans(message, palette, count - 1),
        )
    }
}

/// Whether the rows of a diagnostic can be drawn: there are cells to draw on, and the columns of
/// each row can be counted.
pub open spec fn diagnostic_drawable(
    before: Cells,
    area: Rect,
    message: Seq<char>,
    palette: Palette,
) -> bool {
    forall|i: int|
        #![trigger diagnostic_text(message, i)]
        0 <= i < diagnostic_count(area, message) ==> {
            &&& covers(before, diagnostic_area(area, message, i))
            &&& line_fits(
                diagnostic_area(area, message, i).width,
                diagnostic_spans(message, palette, i),
            )
        }
}

/// Whether a frame differs from the one before in nothing but the cells of the rows of a
/// diagnostic.
pub open spec fn same_beside_rows(
    before: Cells,
    after: Cells,
    area: Rect,
    message: Seq<char>,
) -> bool {
    &&& after.dom() == before.dom()
    &&& forall|x: u16, y: u16|
        before.contains_key((x, y)) && (forall|i: int|
            0 <= i < diagnostic_count(area, message) ==> !(#[trigger] diagnostic_area(
                area,
                message,
                i,
            )).has(x, y)) ==> #[trigger] after[(x, y)] == before[(x, y)]
}

/// A cell in a row of a diagnostic, over a cell that looked like `face`: the text of the row, one
/// character to a cell, and blank right of it.
pub open spec fn diagnostic_face(
    face: CellFace,
    place: Rect,
    x: u16,
    text: Seq<char>,
    palette: Palette,
) -> CellFace {
    if x - place.x < text.len() {
        CellFace {
            symbol: seq![text[x - place.x]],
            fg: palette.panel_contrast_fg,
            bg: palette.yellow,
            modifiers: BOLD,
            skip: false,
        }
    } else {
        blank_face(face)
    }
}

/// Whether a frame shows the text of the first `count` rows of a diagnostic, as far as it is plain.
pub open spec fn rows_written(
    before: Cells,
    after: Cells,
    area: Rect,
    message: Seq<char>,
    palette: Palette,
    count: int,
) -> bool {
    forall|i: int, x: u16, y: u16|
        0 <= i < count && is_plain(diagnostic_text(message, i)) && #[trigger] diagnostic_area(
            area,
            message,
            i,
        ).has(x, y) ==> after[(x, y)] == diagnostic_face(
            before[(x, y)],
            diagnostic_area(area, message, i),
            x,
            diagnostic_text(message, i),
            palette,
        )
}

/// A plain row of a diagnostic is written onto blank cells one character to a cell.
proof fn lemma_row_text(
    before: Cells,
    area: Rect,
    message: Seq<char>,
    palette: Palette,
    i: int,
    x: u16,
    y: u16,
)
    requires
        before.contains_key((x, y)),
        is_plain(diagnostic_text(message, i)),
        diagnostic_area(area, message, i).has(x, y),
    ensures
        ({
            let place = diagnostic_area(area, message, i);
            line_shown(cleared(before, place), place, diagnostic_spans(message, palette, i))[(x, y)]
                == diagnostic_face(
                before[(x, y)],
                place,
                x,
                diagnostic_text(message, i),
                palette,
            )
        }),
{
    let place = diagnostic_area(area, message, i);
    let text = diagnostic_text(message, i);
    let spans = diagnostic_spans(message, palette, i);
    reveal_with_fuel(line_chars, 2);
    assert(is_plain_line(spans));
    assert(line_chars(spans) =~= Seq::new(text.len(), |k: int| (text[k], spans[0].style)));
    assert(0u16 | 1u16 == 1u16) by (bit_vector);
    assert(cleared(before, place).contains_key((x, y)));
}

/// Draws the lines of a diagnostic at the right edge of `area`, and returns how many rows it took.
pub fn render_config_diagnostic_buffer(
    buffer: &mut Buffer,
    area: Rect,
    message: &str,
    palette: &Palette,
) -> (rendered_rows: u16)
    requires
        diagnostic_fits(area, message@),
        diagnostic_drawable(cells(*old(buffer)), area, message@, *palette),
    ensures
        rendered_rows == diagnostic_count(area, message@),
        cells(*final(buffer)) == diagnostics_drawn(
            cells(*old(buffer)),
            area,
            message@,
            *palette,
            diagnostic_count(area, message@),
        ),
        same_beside_rows(cells(*old(buffer)), cells(*final(buffer)), area, message@),
        rows_written(
            cells(*old(buffer)),
            cells(*final(buffer)),
            area,
            message@,
            *palette,
            diagnostic_count(area, message@),
        ),
{
    let rows = config_diagnostic_rows(area, message);
    let ghost before = cells(*buffer);
    let mut rendered_rows: u16 = 0;
    while (rendered_rows as usize) < rows.len()
        invariant
            diagnostic_fits(area, message@),
            diagnostic_drawable(before, area, message@, *palette),
            rows@.len() == diagnostic_count(area, message@),
            forall|i: int|
                #![trigger rows@[i]]
                0 <= i < rows@.len() ==> rows@[i].text@ == diagnostic_text(message@, i)
                    && rows@[i].area == diagnostic_area(area, message@, i),
            rendered_rows <= rows@.len(),
            cells(*buffer).dom() == before.dom(),
            cells(*buffer) == diagnostics_drawn(
                before,
                area,
                message@,
                *palette,
                rendered_rows as int,
            ),
            same_beside_rows(before, cells(*buffer), area, message@),
            rows_written(before, cells(*buffer), area, message@, *palette, rendered_rows as int),
            forall|x: u16, y: u16|
                before.contains_key((x, y)) && y >= area.y + rendered_rows ==> #[trigger] cells(
                    *buffer,
                )[(x, y)] == before[(x, y)],
        decreases rows@.len() - rendered_rows,
    {
        let row = &rows[rendered_rows as usize];
        let text = row_spans(row, palette);
        assert(spans_view(text@) == diagnostic_spans(message@, *palette, rendered_rows as int));
        assert(covers(before, row.area) && line_fits(row.area.width, spans_view(text@)));
        let ghost drawn = cells(*buffer);
        blank_out(buffer, row.area);
        let ghost blank = cells(*buffer);
        draw_line(buffer, row.area, text);
        assert forall|x: u16, y: u16|
            before.contains_key((x, y)) && (forall|i: int|
                0 <= i < diagnostic_count(area, message@) ==> !(#[trigger] diagnostic_area(
                    area,
                    message@,
                    i,
                )).has(x, y)) implies #[trigger] cells(*buffer)[(x, y)] == before[(x, y)] by {
            assert(!diagnostic_area(area, message@, rendered_rows as int).has(x, y));
            assert(blank[(x, y)] == drawn[(x, y)]);
        }
        assert(cells(*buffer).dom() =~= before.dom());
        assert(same_beside_rows(before, cells(*buffer), area, message@));
        assert forall|x: u16, y: u16| before.contains_key((x, y)) && !row.area.has(x, y) implies
            #[trigger] cells(*buffer)[(x, y)] == drawn[(x, y)] by {
            assert(blank[(x, y)] == drawn[(x, y)]);
        }
        assert forall|i: int, x: u16, y: u16|
            0 <= i < rendered_rows + 1 && is_plain(diagnostic_text(message@, i))
                && #[trigger] diagnostic_area(area, message@, i).has(x, y) implies cells(*buffer)[(
            x,
            y,
        )] == diagnostic_face(
            before[(x, y)],
            diagnostic_area(area, message@, i),
            x,
            diagnostic_text(message@, i),
            *palette,
        ) by {
            assert(before.contains_key((x, y)));
            if i == rendered_rows {
                lemma_row_text(drawn, area, message@, *palette, i, x, y);
            } else {
                assert(diagnostic_area(area, message@, i).y == area.y + i);
                assert(!row.area.has(x, y));
            }
        }
        rendered_rows = rendered_rows.saturating_add(1);
    }
    rendered_rows
}

/// Draws the lines of a diagnostic, if they can be placed and drawn, and returns how many rows it
/// took. Otherwise leaves the buffer alone.
pub fn try_render_config_diagnostic_buffer(
    buffer: &mut Buffer,
    area: Rect,
    message: &str,
    palette: &Palette,
) -> (rendered_rows: Option<u16>)
    ensures
        match rendered_rows {
            Some(rows) => {
                &&& diagnostic_fits(area, message@)
                &&& diagnostic_drawable(cells(*old(buffer)), area, message@, *palette)
                &&& rows == diagnostic_count(area, message@)
                &&& cells(*final(buffer)) == diagnostics_drawn(
                    cells(*old(buffer)),
                    area,
                    message@,
                    *palette,
                    rows as int,
                )
                &&& same_beside_rows(cells(*old(buffer)), cells(*final(buffer)), area, message@)
                &&& rows_written(
                    cells(*old(buffer)),
                    cells(*final(buffer)),
                    area,
                    message@,
                    *palette,
                    rows as int,
                )
            },
            None => {
                &&& !(diagnostic_fits(area, message@) && diagnostic_drawable(
                    cells(*old(buffer)),
                    area,
                    message@,
                    *palette,
                ))
                &&& cells(*final(buffer)) == cells(*old(buffer))
            },
        },
{
    if !config_diagnostic_fits(area, message) {
        return None;
    }
    let rows = config_diagnostic_rows(area, message);
    let mut next: usize = 0;
    while next < rows.len()
        invariant
            *buffer == *old(buffer),
            next <= rows@.len() == diagnostic_count(area, message@),
            forall|i: int|
                #![trigger rows@[i]]
                0 <= i < rows@.len() ==> rows@[i].text@ == diagnostic_text(message@, i)
                    && rows@[i].area == diagnostic_area(area, message@, i),
            forall|i: int|
                #![trigger diagnostic_text(message@, i)]
                0 <= i < next ==> {
                    &&& covers(cells(*buffer), diagnostic_area(area, message@, i))
                    &&& line_fits(
                        diagnostic_area(area, message@, i).width,
                        diagnostic_spans(message@, *palette, i),
                    )
                },
        decreases rows@.len() - next,
    {
        let place = rows[next].area;
        assert(place == diagnostic_area(area, message@, next as int));
        let text = row_spans(&rows[next], palette);
        assert(spans_view(text@) == diagnostic_spans(message@, *palette, next as int));
        if !line_fits_width(place.width, &text) || !covers_area(buffer, place) {
            assert(rows@[next as int].text@ == diagnostic_text(message@, next as int));
            return None;
        }
        next += 1;
    }
    Some(render_config_diagnostic_buffer(buffer, area, message, palette))
}

/// Whether all that is computed to place the rows stays within `u16`.
pub fn config_diagnostic_fits(area: Rect, message: &str) -> (fits: bool)
    ensures
        fits == diagnostic_fits(area, message@),
{
    let kept = spoken_lines(message);
    let mut row: u16 = 0;
    while row < area.height && (row as usize) < kept.len()
        invariant
            texts_view(kept@) == spoken(lines(message@)),
            row <= diagnostic_count(area, message@),
            forall|i: int|
                #![trigger diagnostic_text(message@, i)]
                0 <= i < row ==> area.x + (area.width - diagnostic_width(area, message@, i))
                    <= u16::MAX && area.y + i <= u16::MAX,
        decreases area.height - row,
    {
        let text = pad(&kept[row as usize]);
        assert(texts_view(kept@)[row as int] == kept@[row as int]@);
        assert(text@ == diagnostic_text(message@, row as int));
        let text_len: u16 = #[verifier::truncate]
        (text.as_str().len() as u16);
        let width: u16 = if text_len <= area.width {
            text_len
        } else {
            area.width
        };
        let most: u32 = u16::MAX as u32;
        if area.x as u32 + (area.width - width) as u32 > most || area.y as u32 + row as u32 > most {
            return false;
        }
        row += 1;
    }
    true
}

/// Across, a note always lies in the area it is placed in. Down, a note at the bottom always does,
/// and one at the top does as long as there is room for it below the rows it keeps clear.
pub proof fn law_note_lies_in_its_area(
    area: Rect,
    message: Seq<char>,
    offset_rows: u16,
    position: ToastClipboardPosition,
)
    requires
        area.in_range(),
        area.width > 0,
        area.height > 0,
        feedback_fits(area, message, offset_rows, position),
    ensures
        ({
            let place = feedback_area(area, message, offset_rows, position);
            &&& area.x <= place.x
            &&& place.x + place.width <= area.x + area.width
            &&& area.y <= place.y
            &&& !position.is_top() || offset_rows + feedback_height(area) <= area.height
                ==> place.within(area)
        }),
{
}

/// A note without an offset touches the edge that its position names.
pub proof fn law_note_touches_its_edge(
    area: Rect,
    message: Seq<char>,
    position: ToastClipboardPosition,
)
    requires
        area.in_range(),
        area.width > 0,
        area.height > 0,
        feedback_fits(area, message, 0, position),
    ensures
        ({
            let place = feedback_area(area, message, 0, position);
            &&& position.is_top() ==> place.y == area.y
            &&& !position.is_top() ==> place.bottom_end() == area.bottom_end()
        }),
{
}

/// A note at the bottom keeps `offset_rows` rows below it clear, where the area has them to spare,
/// and one at the top those above it.
pub proof fn law_note_keeps_its_offset(
    area: Rect,
    message: Seq<char>,
    offset_rows: u16,
    position: ToastClipboardPosition,
)
    requires
        area.in_range(),
        area.width > 0,
        offset_rows + feedback_height(area) <= area.height,
        area.height > 0,
        feedback_fits(area, message, offset_rows, position),
    ensures
        ({
            let place = feedback_area(area, message, offset_rows, position);
            &&& position.is_top() ==> place.y == area.y + offset_rows
            &&& !position.is_top() ==> place.y + place.height + offset_rows == area.y + area.height
        }),
{
}

/// Sideways a note is left, right or in the middle: what is free on its left is nothing, all, or
/// half of what is free, rounded down.
pub proof fn law_note_is_aligned(
    area: Rect,
    message: Seq<char>,
    offset_rows: u16,
    position: ToastClipboardPosition,
)
    requires
        area.in_range(),
        area.width > 0,
        area.height > 0,
        feedback_fits(area, message, offset_rows, position),
    ensures
        ({
            let place = feedback_area(area, message, offset_rows, position);
            let left = place.x - area.x;
            let right = (area.x + area.width) - (place.x + place.width);
            match position {
                ToastClipboardPosition::TopLeft => left == 0,
                ToastClipboardPosition::BottomLeft => left == 0,
                ToastClipboardPosition::TopRight => right == 0,
                ToastClipboardPosition::BottomRight => right == 0,
                ToastClipboardPosition::TopCenter => left <= right <= left + 1,
                ToastClipboardPosition::BottomCenter => left <= right <= left + 1,
            }
        }),
{
}

/// A note can be placed in any area within range, whatever its position, as long as its message
/// and its offset are not near the end of the range themselves.
pub proof fn law_notes_fit_ordinary_areas(
    area: Rect,
    message: Seq<char>,
    offset_rows: u16,
    position: ToastClipboardPosition,
)
    requires
        area.in_range(),
        byte_len(message) <= u16::MAX - 4,
        offset_rows <= u16::MAX - 3,
    ensures
        feedback_fits(area, message, offset_rows, position),
{
}

/// A note whose message is not near the end of the range can be drawn wherever there are cells to
/// draw on, whatever it says and however wide it is.
pub proof fn law_notes_can_be_drawn(
    before: Cells,
    place: Rect,
    message: Seq<char>,
    palette: Palette,
)
    requires
        covers(before, place),
        byte_len(message) <= u16::MAX - 4,
    ensures
        feedback_drawable(before, place, message, palette),
{
    reveal_strlit("●");
    reveal_strlit(" ");
    reveal_with_fuel(encode_utf8, 2);
    assert(byte_len("●"@) == 3);
    assert(byte_len(" "@) == 1);
    let spans = feedback_spans(message, palette);
    reveal_with_fuel(line_bytes, 4);
    assert(line_bytes(spans) == 4 + byte_len(message));
}

/// The rows of a diagnostic lie in its area, end at its right edge, and stand one below another
/// from its top.
pub proof fn law_diagnostic_rows_are_stacked(area: Rect, message: Seq<char>, i: int)
    requires
        area.in_range(),
        0 <= i < diagnostic_count(area, message),
    ensures
        ({
            let place = diagnostic_area(area, message, i);
            &&& place.within(area)
            &&& place.right_end() == area.right_end()
            &&& place.y == area.y + i
            &&& place.height == 1
        }),
{
}

/// Diagnostics can be placed in any area within range.
pub proof fn law_diagnostics_fit_ordinary_areas(area: Rect, message: Seq<char>)
    requires
        area.in_range(),
    ensures
        diagnostic_fits(area, message),
{
}

/// Diagnostics whose rows are not longer than the range can be drawn wherever there are cells to
/// draw on, whatever they say.
pub proof fn law_diagnostics_can_be_drawn(
    before: Cells,
    area: Rect,
    message: Seq<char>,
    palette: Palette,
)
    requires
        forall|i: int|
            0 <= i < diagnostic_count(area, message) ==> {
                &&& covers(before, diagnostic_area(area, message, i))
                &&& byte_len(#[trigger] diagnostic_text(message, i)) <= u16::MAX
            },
    ensures
        diagnostic_drawable(before, area, message, palette),
{
    reveal_with_fuel(line_bytes, 2);
    assert forall|i: int|
        #![trigger diagnostic_text(message, i)]
        0 <= i < diagnostic_count(area, message) implies line_fits(
        diagnostic_area(area, message, i).width,
        diagnostic_spans(message, palette, i),
    ) by {
        let spans = diagnostic_spans(message, palette, i);
        assert(line_bytes(spans) == byte_len(diagnostic_text(message, i)));
    }
}

/// A row of a diagnostic is one line of its message, which is not blank.
pub proof fn law_diagnostic_rows_speak(area: Rect, message: Seq<char>, i: int)
    requires
        0 <= i < diagnostic_count(area, message),
    ensures
        ({
            let line = spoken(lines(message))[i];
            &&& diagnostic_text(message, i) == padded(line)
            &&& lines(message).contains(line)
            &&& !line.contains('\n')
            &&& !is_blank(line)
        }),
{
    law_spoken_lines_are_not_blank(lines(message), i);
    let at = lines(message).index_of(spoken(lines(message))[i]);
    law_lines_hold_no_newline(message, 0, at);
}

/// A note is as wide as its message has bytes, counted in sixteen bits, and four more, and three
/// rows high, but no larger than its area, and no larger than there are columns right of where it
/// starts and rows below.
pub proof fn law_size_of_a_note(
    area: Rect,
    message: Seq<char>,
    offset_rows: u16,
    position: ToastClipboardPosition,
)
    requires
        encode_utf8(message).len() <= usize::MAX,
        feedback_fits(area, message, offset_rows, position),
    ensures
        ({
            let place = feedback_area(area, message, offset_rows, position);
            let asked = encode_utf8(message).len() % 65536 + 4;
            let wide: int = if asked <= area.width {
                asked as int
            } else {
                area.width as int
            };
            let high: int = if area.height < 3 {
                area.height as int
            } else {
                3
            };
            &&& area.width == 0 || area.height == 0 ==> place.width == 0 && place.height == 0
            &&& area.width > 0 && area.height > 0 ==> {
                &&& place.x + wide <= u16::MAX ==> place.width == wide
                &&& place.x + wide > u16::MAX ==> place.x + place.width == u16::MAX
                &&& place.y + high <= u16::MAX ==> place.height == high
                &&& place.y + high > u16::MAX ==> place.y + place.height == u16::MAX
            }
        }),
{
    lemma_reduced(byte_len(message));
}

/// A length reduced to sixteen bits.
proof fn lemma_reduced(len: usize)
    ensures
        len as u16 == len % 65536,
{
    assert(len as u16 == len % 65536) by (bit_vector);
}

/// Sideways a note stands against the left edge of its area, against the right one, or as near to
/// the middle as cells allow. It stands its offset below the top of its area, as far as the area
/// goes, or its offset above the bottom, as far as there is room.
pub proof fn law_place_of_a_note(
    area: Rect,
    message: Seq<char>,
    offset_rows: u16,
    position: ToastClipboardPosition,
)
    requires
        area.width > 0,
        area.height > 0,
        encode_utf8(message).len() <= usize::MAX,
        feedback_fits(area, message, offset_rows, position),
    ensures
        ({
            let place = feedback_area(area, message, offset_rows, position);
            let asked = encode_utf8(message).len() % 65536 + 4;
            let free: int = if asked <= area.width {
                area.width - asked
            } else {
                0
            };
            let high: int = if area.height < 3 {
                area.height as int
            } else {
                3
            };
            let down = place.y - area.y;
            let top = if offset_rows <= area.height {
                down == offset_rows
            } else {
                down == area.height
            };
            let bottom = if high + offset_rows <= area.height {
                down + high + offset_rows == area.height
            } else {
                down == 0
            };
            match position {
                ToastClipboardPosition::TopLeft => top && place.x == area.x,
                ToastClipboardPosition::TopCenter => top && place.x == area.x + free / 2,
                ToastClipboardPosition::TopRight => top && place.x == area.x + free,
                ToastClipboardPosition::BottomLeft => bottom && place.x == area.x,
                ToastClipboardPosition::BottomCenter => bottom && place.x == area.x + free / 2,
                ToastClipboardPosition::BottomRight => bottom && place.x == area.x + free,
            }
        }),
{
    lemma_reduced(byte_len(message));
}

/// A note can be placed in any area whose ends are coordinates, whatever its position and message,
/// unless the length of the message or the offset is near the end of sixteen bits.
pub proof fn law_notes_can_be_placed(
    area: Rect,
    message: Seq<char>,
    offset_rows: u16,
    position: ToastClipboardPosition,
)
    requires
        area.x + area.width <= u16::MAX,
        area.y + area.height <= u16::MAX,
        encode_utf8(message).len() <= usize::MAX,
        encode_utf8(message).len() % 65536 <= 65531,
        offset_rows <= 65532,
    ensures
        feedback_fits(area, message, offset_rows, position),
{
    lemma_reduced(byte_len(message));
}

/// A note can be drawn wherever there is a cell in each of its columns and rows, whatever it says,
/// as long as its message has no more bytes than sixteen bits count with the bullet.
pub proof fn law_notes_are_drawn_on_any_cells(
    before: Cells,
    place: Rect,
    message: Seq<char>,
    palette: Palette,
)
    requires
        place.x + place.width <= u16::MAX,
        place.y + place.height <= u16::MAX,
        forall|x: u16, y: u16|
            place.x <= x < place.x + place.width && place.y <= y < place.y + place.height
                ==> #[trigger] before.contains_key((x, y)),
        encode_utf8(message).len() <= 65531,
    ensures
        feedback_drawable(before, place, message, palette),
{
    law_notes_can_be_drawn(before, place, message, palette);
}

/// A note of three rows or more shows a bullet, a space and then its message, character by
/// character, in the row below its top border, as far as the right border lets it. The message is
/// bold, in the colour of text, and all of it on the ground of the panel.
pub proof fn law_a_note_shows_its_message(
    before: Cells,
    after: Cells,
    place: Rect,
    message: Seq<char>,
    palette: Palette,
    k: int,
)
    requires
        note_written(before, after, place, message, palette),
        place.x + place.width <= u16::MAX,
        place.y + place.height <= u16::MAX,
        place.height >= 3,
        forall|i: int| 0 <= i < message.len() ==> ' ' <= #[trigger] message[i] <= '~',
    ensures
        place.width >= 3 ==> {
            let cell = after[((place.x + 1) as u16, (place.y + 1) as u16)];
            &&& cell.symbol == seq!['●']
            &&& cell.fg == palette.green
            &&& cell.bg == palette.panel_bg
            &&& cell.modifiers == 0
            &&& !cell.skip
        },
        place.width >= 4 ==> {
            let cell = after[((place.x + 2) as u16, (place.y + 1) as u16)];
            &&& cell.symbol == seq![' ']
            &&& cell.bg == palette.panel_bg
            &&& cell.modifiers == 0
            &&& !cell.skip
        },
        0 <= k < message.len() && 3 + k < place.width - 1 ==> {
            let cell = after[((place.x + 3 + k) as u16, (place.y + 1) as u16)];
            &&& cell.symbol == seq![message[k]]
            &&& cell.fg == palette.text
            &&& cell.bg == palette.panel_bg
            &&& cell.modifiers == 1
            &&& !cell.skip
        },
        k >= message.len() && 3 + k < place.width - 1 ==> {
            let cell = after[((place.x + 3 + k) as u16, (place.y + 1) as u16)];
            &&& cell.symbol == seq![' ']
            &&& cell.bg == palette.panel_bg
            &&& cell.modifiers == 0
            &&& !cell.skip
        },
{
    let inner = inside_border(place);
    assert(is_plain(message));
    let y = (place.y + 1) as u16;
    if place.width >= 3 {
        assert(inner.has((place.x + 1) as u16, y));
    }
    if place.width >= 4 {
        assert(inner.has((place.x + 2) as u16, y));
    }
    if 0 <= k && 3 + k < place.width - 1 {
        assert(inner.has((place.x + 3 + k) as u16, y));
    }
}

/// In an area with room for it, a note shows the whole of a printable message: each character has a
/// cell of its own between the borders.
pub proof fn law_a_note_with_room_shows_all_of_its_message(
    before: Cells,
    after: Cells,
    area: Rect,
    message: Seq<char>,
    offset_rows: u16,
    position: ToastClipboardPosition,
    palette: Palette,
    k: int,
)
    requires
        area.x + area.width <= u16::MAX,
        area.y + area.height <= u16::MAX,
        message.len() <= 65531,
        message.len() + 4 <= area.width,
        forall|i: int| 0 <= i < message.len() ==> ' ' <= #[trigger] message[i] <= '~',
        feedback_fits(area, message, offset_rows, position),
        note_written(
            before,
            after,
            feedback_area(area, message, offset_rows, position),
            message,
            palette,
        ),
        feedback_area(area, message, offset_rows, position).height == 3,
        0 <= k < message.len(),
    ensures
        ({
            let place = feedback_area(area, message, offset_rows, position);
            &&& place.width == message.len() + 4
            &&& place.x + 3 + k < place.x + place.width - 1
            &&& after[((place.x + 3 + k) as u16, (place.y + 1) as u16)].symbol == seq![message[k]]
        }),
{
    assert(is_ascii_chars(message));
    is_ascii_chars_encode_utf8(message);
    law_size_of_a_note(area, message, offset_rows, position);
    let place = feedback_area(area, message, offset_rows, position);
    law_place_of_a_note(area, message, offset_rows, position);
    law_a_note_shows_its_message(before, after, place, message, palette, k);
}

/// Round its text a note shows a single line with corners, in green on the ground of the panel, and
/// beside it nothing changes.
pub proof fn law_a_note_is_framed(
    before: Cells,
    after: Cells,
    place: Rect,
    palette: Palette,
    x: u16,
    y: u16,
)
    requires
        note_framed(before, after, place, palette),
        before.contains_key((x, y)),
        place.width >= 2,
        place.height >= 2,
        place.x + place.width <= u16::MAX,
        place.y + place.height <= u16::MAX,
    ensures
        ({
            let left = x == place.x;
            let right = x == place.x + place.width - 1;
            let top = y == place.y;
            let bottom = y == place.y + place.height - 1;
            let cell = after[(x, y)];
            if x < place.x || x >= place.x + place.width || y < place.y || y >= place.y
                + place.height {
                cell == before[(x, y)]
            } else {
                &&& left && top ==> cell.symbol == seq!['┌']
                &&& right && top ==> cell.symbol == seq!['┐']
                &&& left && bottom ==> cell.symbol == seq!['└']
                &&& right && bottom ==> cell.symbol == seq!['┘']
                &&& (top || bottom) && !left && !right ==> cell.symbol == seq!['─']
                &&& (left || right) && !top && !bottom ==> cell.symbol == seq!['│']
                &&& left || right || top || bottom ==> cell.fg == palette.green && cell.bg
                    == palette.panel_bg && cell.modifiers == 0 && !cell.skip
            }
        }),
{
    if x < place.x || x >= place.x + place.width || y < place.y || y >= place.y + place.height {
        assert(!place.has(x, y));
        assert(after[(x, y)] == before[(x, y)]);
    } else {
        assert(place.has(x, y));
        if x == place.x || x == place.x + place.width - 1 || y == place.y || y == place.y
            + place.height - 1 {
            assert(!inside_border(place).has(x, y));
            assert(after[(x, y)] == note_border_face(place, x, y, palette));
        }
    }
}

/// A diagnostic takes a row for each of its lines that shows something, but no more rows than its
/// area has.
pub proof fn law_rows_that_a_diagnostic_takes(area: Rect, message: Seq<char>)
    ensures
        spoken(lines(message)).len() <= area.height ==> diagnostic_count(area, message) == spoken(
            lines(message),
        ).len(),
        spoken(lines(message)).len() > area.height ==> diagnostic_count(area, message)
            == area.height,
{
}

/// A line of a diagnostic with a character that is not white space gets a row, where the area has
/// rows enough: the line as it stands, with a space on either side.
pub proof fn law_a_line_that_shows_something_gets_a_row(
    area: Rect,
    message: Seq<char>,
    k: int,
    i: int,
) -> (row: int)
    requires
        0 <= k < lines(message).len(),
        0 <= i < lines(message)[k].len(),
        !is_white_space(lines(message)[k][i]),
        spoken(lines(message)).len() <= area.height,
    ensures
        0 <= row < diagnostic_count(area, message),
        diagnostic_text(message, row) == seq![' '] + lines(message)[k] + seq![' '],
{
    law_a_line_that_shows_something_is_kept(lines(message), k, i);
    spoken(lines(message)).index_of(lines(message)[k])
}

/// Each row of a diagnostic is a line of its message with a character that is not white space, with
/// a space on either side, and the rows come in the order of the lines that are kept.
pub proof fn law_what_a_row_says(area: Rect, message: Seq<char>, row: int) -> (at: int)
    requires
        0 <= row < diagnostic_count(area, message),
    ensures
        diagnostic_text(message, row) == seq![' '] + spoken(lines(message))[row] + seq![' '],
        lines(message).contains(spoken(lines(message))[row]),
        0 <= at < spoken(lines(message))[row].len(),
        !is_white_space(spoken(lines(message))[row][at]),
{
    law_spoken_lines_are_not_blank(lines(message), row);
    let line = spoken(lines(message))[row];
    choose|at: int| 0 <= at < line.len() && !is_white_space(#[trigger] line[at])
}

/// A row of a diagnostic is as wide as its text has bytes, counted in sixteen bits, but no wider
/// than its area. It ends at the right edge, as far as columns go, and is one row high, as far down
/// as rows come before.
pub proof fn law_place_of_a_row(area: Rect, message: Seq<char>, row: int)
    requires
        diagnostic_fits(area, message),
        0 <= row < diagnostic_count(area, message),
        encode_utf8(diagnostic_text(message, row)).len() <= usize::MAX,
    ensures
        ({
            let place = diagnostic_area(area, message, row);
            let asked = encode_utf8(diagnostic_text(message, row)).len() % 65536;
            let wide: int = if asked <= area.width {
                asked as int
            } else {
                area.width as int
            };
            &&& place.x == area.x + area.width - wide
            &&& place.x + wide <= u16::MAX ==> place.width == wide
            &&& place.x + wide > u16::MAX ==> place.x + place.width == u16::MAX
            &&& place.y == area.y + row
            &&& place.y < u16::MAX ==> place.height == 1
        }),
{
    lemma_reduced(byte_len(diagnostic_text(message, row)));
}

/// A printable row of a diagnostic shows its text against the right edge of the area, character by
/// character and all of it where there is room, and from the left edge as far as it goes where there
/// is not. It is bold, in the contrasting colour on yellow.
pub proof fn law_a_row_shows_its_text(
    before: Cells,
    after: Cells,
    area: Rect,
    message: Seq<char>,
    palette: Palette,
    count: int,
    row: int,
    k: int,
)
    requires
        rows_written(before, after, area, message, palette, count),
        area.x + area.width <= u16::MAX,
        area.y + area.height <= u16::MAX,
        0 <= row < count <= diagnostic_count(area, message),
        diagnostic_text(message, row).len() <= u16::MAX,
        forall|i: int|
            0 <= i < diagnostic_text(message, row).len() ==> ' ' <= #[trigger] diagnostic_text(
                message,
                row,
            )[i] <= '~',
        0 <= k < diagnostic_text(message, row).len(),
        k < area.width,
    ensures
        ({
            let text = diagnostic_text(message, row);
            let left = if text.len() <= area.width {
                area.x + area.width - text.len()
            } else {
                area.x as int
            };
            let cell = after[((left + k) as u16, (area.y + row) as u16)];
            &&& cell.symbol == seq![text[k]]
            &&& cell.fg == palette.panel_contrast_fg
            &&& cell.bg == palette.yellow
            &&& cell.modifiers == 1
            &&& !cell.skip
        }),
{
    let text = diagnostic_text(message, row);
    assert(is_ascii_chars(text));
    is_ascii_chars_encode_utf8(text);
    assert(is_plain(text));
    law_place_of_a_row(area, message, row);
    let place = diagnostic_area(area, message, row);
    assert(place.has((place.x + k) as u16, place.y));
}

/// A diagnostic changes no cell but those in the columns of its area and in the rows it takes.
pub proof fn law_cells_beside_a_diagnostic_stay(
    before: Cells,
    after: Cells,
    area: Rect,
    message: Seq<char>,
    x: u16,
    y: u16,
)
    requires
        same_beside_rows(before, after, area, message),
        area.x + area.width <= u16::MAX,
        area.y + area.height <= u16::MAX,
        before.contains_key((x, y)),
        x < area.x || x >= area.x + area.width || y < area.y || y >= area.y + diagnostic_count(
            area,
            message,
        ),
    ensures
        after.contains_key((x, y)),
        after[(x, y)] == before[(x, y)],
{
    assert forall|i: int| 0 <= i < diagnostic_count(area, message) implies !(
    #[trigger] diagnostic_area(area, message, i)).has(x, y) by {
        law_diagnostic_rows_are_stacked(area, message, i);
    }
    assert(after.dom().contains((x, y)));
}

/// Diagnostics can be placed in any area whose ends are coordinates.
pub proof fn law_diagnostics_can_be_placed(area: Rect, message: Seq<char>)
    requires
        area.x + area.width <= u16::MAX,
        area.y + area.height <= u16::MAX,
    ensures
        diagnostic_fits(area, message),
{
}

/// A diagnostic can be drawn wherever there is a cell in each column and row of its area, whatever
/// it says, as long as none of its rows has more bytes than sixteen bits count.
pub proof fn law_diagnostics_are_drawn_on_any_cells(
    before: Cells,
    area: Rect,
    message: Seq<char>,
    palette: Palette,
)
    requires
        area.x + area.width <= u16::MAX,
        area.y + area.height <= u16::MAX,
        forall|x: u16, y: u16|
            area.x <= x < area.x + area.width && area.y <= y < area.y + area.height
                ==> #[trigger] before.contains_key((x, y)),
        forall|i: int|
            0 <= i < spoken(lines(message)).len() ==> encode_utf8(
                seq![' '] + #[trigger] spoken(lines(message))[i] + seq![' '],
            ).len() <= 65535,
    ensures
        diagnostic_drawable(before, area, message, palette),
{
    assert forall|i: int| 0 <= i < diagnostic_count(area, message) implies covers(
        before,
        diagnostic_area(area, message, i),
    ) && byte_len(#[trigger] diagnostic_text(message, i)) <= u16::MAX by {
        law_diagnostic_rows_are_stacked(area, message, i);
        assert(encode_utf8(seq![' '] + spoken(lines(message))[i] + seq![' ']).len() <= 65535);
        assert(diagnostic_text(message, i) == seq![' '] + spoken(lines(message))[i] + seq![' ']);
    }
    law_diagnostics_can_be_drawn(before, area, message, palette);
}

/// A long message of ASCII characters can be drawn wherever there is a cell in each column and row
/// of the note, but for a note as wide as columns go.
pub proof fn law_long_ascii_notes_can_be_drawn(
    before: Cells,
    place: Rect,
    message: Seq<char>,
    palette: Palette,
)
    requires
        place.x + place.width <= u16::MAX,
        place.y + place.height <= u16::MAX,
        place.width < u16::MAX,
        forall|x: u16, y: u16|
            place.x <= x < place.x + place.width && place.y <= y < place.y + place.height
                ==> #[trigger] before.contains_key((x, y)),
        forall|i: int| 0 <= i < message.len() ==> '\0' <= #[trigger] message[i] <= '\u{7f}',
    ensures
        feedback_drawable(before, place, message, palette),
{
    reveal_strlit("●");
    reveal_strlit(" ");
    reveal_with_fuel(encode_utf8, 2);
    let spans = feedback_spans(message, palette);
    let width = inside_border(place).width;
    assert(is_ascii_chars(message));
    assert(byte_len("●"@) == 3 && byte_len(" "@) == 1);
    assert(span_fits(width, spans[0]) && span_fits(width, spans[1]) && span_fits(width, spans[2]));
    assert(line_fits(width, spans));
}

/// Whatever its message says, a note writes a green bullet, a space, and then the message in bold,
/// as it stands, and a row of a diagnostic its text in bold in the contrasting colour on yellow.
pub proof fn law_what_overlays_write(message: Seq<char>, palette: Palette, row: int)
    ensures
        feedback_spans(message, palette) == seq![
            SpanView {
                content: seq!['●'],
                style: Style { fg: Some(palette.green), bg: Some(palette.panel_bg), modifiers: 0 },
            },
            SpanView { content: seq![' '], style: Style { fg: None, bg: None, modifiers: 0 } },
            SpanView {
                content: message,
                style: Style { fg: Some(palette.text), bg: Some(palette.panel_bg), modifiers: 1 },
            },
        ],
        diagnostic_spans(message, palette, row) == seq![
            SpanView {
                content: diagnostic_text(message, row),
                style: Style {
                    fg: Some(palette.panel_contrast_fg),
                    bg: Some(palette.yellow),
                    modifiers: 1,
                },
            },
        ],
{
    reveal_strlit("●");
    reveal_strlit(" ");
    assert("●"@ == seq!['●']);
    assert(" "@ == seq![' ']);
}

/// A note with a message that is not all printable draws its text inside the border, on a panel of
/// blank cells. Without a row inside the border it is the panel alone, and without a cell nothing.
pub proof fn law_how_a_note_is_drawn(
    before: Cells,
    place: Rect,
    message: Seq<char>,
    palette: Palette,
    i: int,
)
    requires
        place.x + place.width <= u16::MAX,
        place.y + place.height <= u16::MAX,
        0 <= i < message.len(),
        message[i] < ' ' || message[i] > '~',
        message[i] != '●',
    ensures
        ({
            let panel = panel_drawn(
                cleared(before, place),
                place,
                Style { fg: Some(palette.green), bg: None, modifiers: 0 },
                Style { fg: None, bg: Some(palette.panel_bg), modifiers: 0 },
            );
            let drawn = feedback_drawn(before, place, message, palette);
            &&& place.width == 0 || place.height == 0 ==> drawn == before
            &&& place.width > 0 && 0 < place.height <= 2 ==> drawn == panel
            &&& place.width > 2 && place.height > 2 ==> drawn == line_drawn(
                panel,
                Rect {
                    x: (place.x + 1) as u16,
                    y: (place.y + 1) as u16,
                    width: (place.width - 2) as u16,
                    height: (place.height - 2) as u16,
                },
                feedback_spans(message, palette),
            )
        }),
{
    assert(!is_plain(feedback_spans(message, palette)[2].content));
}

/// Rows of a diagnostic are drawn one after another, each onto blank cells of its own.
pub proof fn law_how_rows_are_drawn(
    before: Cells,
    area: Rect,
    message: Seq<char>,
    palette: Palette,
    row: int,
    i: int,
)
    requires
        0 <= row,
        0 <= i < diagnostic_text(message, row).len(),
        diagnostic_text(message, row)[i] < ' ' || diagnostic_text(message, row)[i] > '~',
        diagnostic_text(message, row)[i] != '●',
    ensures
        diagnostics_drawn(before, area, message, palette, 0) == before,
        ({
            let place = diagnostic_area(area, message, row);
            diagnostics_drawn(before, area, message, palette, row + 1) == line_drawn(
                cleared(diagnostics_drawn(before, area, message, palette, row), place),
                place,
                diagnostic_spans(message, palette, row),
            )
        }),
{
    assert(!is_plain(diagnostic_spans(message, palette, row)[0].content));
}

} // verus!
