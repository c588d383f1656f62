use herdr::geometry::Rect;
use herdr::overlay::{
    config_diagnostic_fits, config_diagnostic_rows, copy_feedback_fits, copy_feedback_rect,
    render_config_diagnostic_buffer, render_copy_feedback_buffer,
    try_render_config_diagnostic_buffer, try_render_copy_feedback_buffer, CopyFeedback,
    ToastClipboardPosition,
};
use herdr::screen::{blank_out, covers_area, line_fits_width, Span, Style};
use herdr::status::Palette;
use ratatui::buffer::Buffer;
use ratatui::style::{Color, Modifier};

fn palette() -> Palette {
    Palette {
        red: Color::Red,
        yellow: Color::Yellow,
        teal: Color::Cyan,
        peach: Color::LightRed,
        green: Color::Green,
        overlay0: Color::DarkGray,
        text: Color::White,
        panel_bg: Color::Rgb(24, 24, 37),
        panel_contrast_fg: Color::Black,
    }
}

fn note(message: &str) -> CopyFeedback {
    CopyFeedback { message: message.to_owned() }
}

/// A buffer full of `x` in red.
fn screen(width: u16, height: u16) -> Buffer {
    let line = "x".repeat(width as usize);
    let mut buffer = Buffer::with_lines(vec![line; height as usize]);
    for cell in &mut buffer.content {
        cell.fg = Color::Red;
        cell.modifier = Modifier::ITALIC;
    }
    buffer
}

fn rows(buffer: &Buffer) -> Vec<String> {
    let area = buffer.area;
    (area.top()..area.bottom())
        .map(|y| (area.left()..area.right()).map(|x| buffer[(x, y)].symbol()).collect())
        .collect()
}

#[test]
fn copy_feedback_rect_uses_configured_position() {
    let area = Rect::new(10, 20, 100, 40);
    let feedback = CopyFeedback {
        message: "copied to clipboard".to_owned(),
    };

    let top = copy_feedback_rect(area, &feedback, 0, ToastClipboardPosition::TopCenter);
    assert_eq!(top.y, area.y);
    assert_eq!(top.x, area.x + area.width.saturating_sub(top.width) / 2);

    let bottom = copy_feedback_rect(area, &feedback, 0, ToastClipboardPosition::BottomCenter);
    assert_eq!(bottom.bottom(), area.bottom());
    assert_eq!(
        bottom.x,
        area.x + area.width.saturating_sub(bottom.width) / 2
    );
}

#[test]
fn a_note_goes_where_its_position_says() {
    let area = Rect::new(10, 20, 100, 40);
    let feedback = note("abcdef");
    let place = |position| copy_feedback_rect(area, &feedback, 2, position);
    let at = |x, y| Rect { x, y, width: 10, height: 3 };
    assert_eq!(place(ToastClipboardPosition::TopLeft), at(10, 22));
    assert_eq!(place(ToastClipboardPosition::TopCenter), at(55, 22));
    assert_eq!(place(ToastClipboardPosition::TopRight), at(100, 22));
    assert_eq!(place(ToastClipboardPosition::BottomLeft), at(10, 55));
    assert_eq!(place(ToastClipboardPosition::BottomCenter), at(55, 55));
    assert_eq!(place(ToastClipboardPosition::BottomRight), at(100, 55));
}

#[test]
fn a_note_is_measured_in_bytes_and_cut_to_its_area() {
    let top = ToastClipboardPosition::TopLeft;
    let roomy = Rect::new(0, 0, 50, 10);
    assert_eq!(copy_feedback_rect(roomy, &note("äö"), 0, top).width, 8);
    let narrow = Rect::new(0, 0, 6, 2);
    assert_eq!(
        copy_feedback_rect(narrow, &note("abcdef"), 0, top),
        Rect { x: 0, y: 0, width: 6, height: 2 }
    );
    let empty = Rect::new(5, 5, 0, 10);
    assert_eq!(
        copy_feedback_rect(empty, &note("abcdef"), 0, top),
        Rect { x: 0, y: 0, width: 0, height: 0 }
    );
    // An offset beyond the area puts the note below it.
    assert_eq!(copy_feedback_rect(narrow, &note("abcdef"), 9, top).y, 2);
    assert_eq!(
        copy_feedback_rect(narrow, &note("abcdef"), 9, ToastClipboardPosition::BottomLeft).y,
        0
    );
}

#[test]
fn a_note_that_cannot_be_placed_is_told_apart() {
    let area = Rect::new(0, 0, 50, 10);
    let bottom = ToastClipboardPosition::BottomLeft;
    assert!(copy_feedback_fits(area, &note("abc"), 65532, bottom));
    assert!(!copy_feedback_fits(area, &note("abc"), 65533, bottom));
    assert!(copy_feedback_fits(area, &note("abc"), 65533, ToastClipboardPosition::TopLeft));
    let long = "a".repeat(65531);
    assert!(copy_feedback_fits(area, &note(&long), 0, bottom));
    let longer = "a".repeat(65532);
    assert!(!copy_feedback_fits(area, &note(&longer), 0, bottom));
    let beyond = Rect { x: 65535, y: 0, width: 50, height: 10 };
    assert!(!copy_feedback_fits(beyond, &note("abc"), 0, ToastClipboardPosition::TopRight));
    assert!(copy_feedback_fits(beyond, &note("abc"), 0, ToastClipboardPosition::TopLeft));
}

#[test]
fn rectangles_are_clamped_as_the_interface_clamps_them() {
    assert_eq!(Rect::new(65530, 3, 10, 4), Rect { x: 65530, y: 3, width: 5, height: 4 });
    for (x, y, width, height) in
        [(0, 0, 0, 0), (1, 2, 3, 4), (65535, 65535, 9, 9), (9, 65000, 65535, 600)]
    {
        let own = Rect::new(x, y, width, height);
        let theirs = ratatui::layout::Rect::new(x, y, width, height);
        assert_eq!((own.x, own.y), (theirs.x, theirs.y));
        assert_eq!((own.width, own.height), (theirs.width, theirs.height));
        assert_eq!((own.right(), own.bottom()), (theirs.right(), theirs.bottom()));
        assert_eq!(own.is_empty(), theirs.is_empty());
    }
}

#[test]
fn a_note_is_drawn_as_a_panel_with_its_message() {
    let mut buffer = screen(20, 7);
    render_copy_feedback_buffer(
        &mut buffer,
        Rect::new(0, 0, 20, 7),
        &note("copied"),
        1,
        ToastClipboardPosition::TopRight,
        &palette(),
    );
    assert_eq!(
        rows(&buffer),
        vec![
            "xxxxxxxxxxxxxxxxxxxx",
            "xxxxxxxxxx┌────────┐",
            "xxxxxxxxxx│● copied│",
            "xxxxxxxxxx└────────┘",
            "xxxxxxxxxxxxxxxxxxxx",
            "xxxxxxxxxxxxxxxxxxxx",
            "xxxxxxxxxxxxxxxxxxxx",
        ]
    );
    let panel_bg = Color::Rgb(24, 24, 37);
    let corner = &buffer[(10, 1)];
    assert_eq!((corner.fg, corner.bg, corner.modifier), (Color::Green, panel_bg, Modifier::empty()));
    let bullet = &buffer[(11, 2)];
    assert_eq!((bullet.fg, bullet.bg, bullet.modifier), (Color::Green, panel_bg, Modifier::empty()));
    let gap = &buffer[(12, 2)];
    assert_eq!((gap.fg, gap.bg, gap.modifier), (Color::Reset, panel_bg, Modifier::empty()));
    let letter = &buffer[(13, 2)];
    assert_eq!((letter.fg, letter.bg, letter.modifier), (Color::White, panel_bg, Modifier::BOLD));
    let outside = &buffer[(9, 2)];
    assert_eq!((outside.fg, outside.bg, outside.modifier), (Color::Red, Color::Reset, Modifier::ITALIC));
}

#[test]
fn a_note_without_room_for_text_is_only_a_panel() {
    let mut buffer = screen(12, 2);
    let area = Rect::new(0, 0, 12, 2);
    let top = ToastClipboardPosition::TopLeft;
    render_copy_feedback_buffer(&mut buffer, area, &note("abcd"), 0, top, &palette());
    assert_eq!(rows(&buffer), vec!["┌──────┐xxxx", "└──────┘xxxx"]);

    let mut line = screen(12, 1);
    let area = Rect::new(0, 0, 12, 1);
    render_copy_feedback_buffer(&mut line, area, &note("abcd"), 0, top, &palette());
    assert_eq!(rows(&line), vec!["┌──────┐xxxx"]);

    let mut column = screen(1, 3);
    let area = Rect::new(0, 0, 1, 3);
    render_copy_feedback_buffer(&mut column, area, &note("abcd"), 0, top, &palette());
    assert_eq!(rows(&column), vec!["┌", "│", "└"]);

    let mut untouched = screen(4, 1);
    let area = Rect::new(0, 0, 0, 5);
    render_copy_feedback_buffer(&mut untouched, area, &note("abcd"), 0, top, &palette());
    assert_eq!(untouched, screen(4, 1));
}

#[test]
fn a_note_that_has_no_cells_is_not_drawn() {
    let mut buffer = screen(10, 4);
    let area = Rect::new(0, 0, 12, 4);
    let left = ToastClipboardPosition::TopLeft;
    let right = ToastClipboardPosition::TopRight;
    assert!(!try_render_copy_feedback_buffer(&mut buffer, area, &note("a"), 0, right, &palette()));
    assert_eq!(buffer, screen(10, 4));
    assert!(!try_render_copy_feedback_buffer(&mut buffer, area, &note("a"), 3, left, &palette()));
    assert!(try_render_copy_feedback_buffer(&mut buffer, area, &note("a"), 0, left, &palette()));
    assert_eq!(rows(&buffer)[1], "│● a│xxxxx");
}

#[test]
fn blanking_out_resets_the_cells_of_an_area() {
    let mut buffer = screen(4, 3);
    assert!(covers_area(&buffer, Rect::new(0, 0, 4, 3)));
    assert!(covers_area(&buffer, Rect::new(9, 9, 0, 3)));
    assert!(!covers_area(&buffer, Rect::new(0, 0, 5, 3)));
    assert!(!covers_area(&buffer, Rect::new(0, 1, 4, 3)));
    blank_out(&mut buffer, Rect::new(1, 1, 2, 1));
    assert_eq!(rows(&buffer), vec!["xxxx", "x  x", "xxxx"]);
    assert_eq!(buffer[(1, 1)], ratatui::buffer::Cell::EMPTY);
}

#[test]
fn a_diagnostic_is_drawn_line_by_line_at_the_right_edge() {
    let mut buffer = screen(12, 5);
    let drawn = render_config_diagnostic_buffer(
        &mut buffer,
        Rect::new(0, 1, 12, 4),
        "bad key\r\n \t \n\nline 2\n",
        &palette(),
    );
    assert_eq!(drawn, 2);
    assert_eq!(
        rows(&buffer),
        vec!["xxxxxxxxxxxx", "xxx bad key ", "xxxx line 2 ", "xxxxxxxxxxxx", "xxxxxxxxxxxx"]
    );
    for x in 3..12 {
        let cell = &buffer[(x, 1)];
        assert_eq!((cell.fg, cell.bg, cell.modifier), (Color::Black, Color::Yellow, Modifier::BOLD));
    }
    assert_eq!(buffer[(2, 1)].fg, Color::Red);
}

#[test]
fn a_diagnostic_is_cut_to_its_area() {
    let mut buffer = screen(6, 3);
    let area = Rect::new(0, 0, 6, 2);
    let drawn = render_config_diagnostic_buffer(&mut buffer, area, "abcdefgh\nb\nc", &palette());
    assert_eq!(drawn, 2);
    assert_eq!(rows(&buffer), vec![" abcde", "xxx b ", "xxxxxx"]);
}

#[test]
fn the_rows_of_a_diagnostic_are_stacked() {
    let rows = config_diagnostic_rows(Rect::new(10, 5, 20, 3), "one\n\ntwo äö\nthree\nfour");
    let texts: Vec<&str> = rows.iter().map(|row| row.text.as_str()).collect();
    assert_eq!(texts, vec![" one ", " two äö ", " three "]);
    assert_eq!(rows[0].area, Rect { x: 25, y: 5, width: 5, height: 1 });
    assert_eq!(rows[1].area, Rect { x: 20, y: 6, width: 10, height: 1 });
    assert_eq!(rows[2].area, Rect { x: 23, y: 7, width: 7, height: 1 });
    assert!(config_diagnostic_rows(Rect::new(0, 0, 20, 0), "one").is_empty());
    assert!(config_diagnostic_rows(Rect::new(0, 0, 20, 5), " \n\t").is_empty());
}

#[test]
fn a_diagnostic_that_has_no_cells_is_not_drawn() {
    let mut buffer = screen(6, 2);
    let area = Rect::new(0, 0, 6, 3);
    assert_eq!(
        try_render_config_diagnostic_buffer(&mut buffer, area, "a\nb\nc", &palette()),
        None
    );
    assert_eq!(buffer, screen(6, 2));
    assert_eq!(
        try_render_config_diagnostic_buffer(&mut buffer, area, "a\nb", &palette()),
        Some(2)
    );
    assert_eq!(rows(&buffer), vec!["xxx a ", "xxx b "]);

    let beyond = Rect { x: 65535, y: 0, width: 9, height: 1 };
    assert!(!config_diagnostic_fits(beyond, "a"));
    assert!(config_diagnostic_fits(beyond, " "));
    assert!(config_diagnostic_fits(Rect::new(65000, 65000, 9000, 9000), "a\nb"));
    assert_eq!(try_render_config_diagnostic_buffer(&mut buffer, beyond, "a", &palette()), None);
}

/// One grapheme of 32768 leading consonants, each two columns wide.
fn giant_grapheme() -> String {
    "\u{1100}".repeat(32768)
}

#[test]
fn a_line_fits_where_its_columns_can_be_counted() {
    let line = |texts: Vec<String>| -> Vec<Span> {
        texts
            .into_iter()
            .map(|content| Span { content, style: Style { fg: None, bg: None, modifiers: 0 } })
            .collect()
    };
    assert!(line_fits_width(0, &line(vec![])));
    assert!(line_fits_width(u16::MAX, &line(vec!["a".repeat(65535)])));
    assert!(!line_fits_width(u16::MAX, &line(vec!["a".repeat(65536)])));
    assert!(line_fits_width(u16::MAX - 1, &line(vec!["a".repeat(65536)])));
    assert!(!line_fits_width(20, &line(vec![giant_grapheme()])));
    assert!(!line_fits_width(20, &line(vec!["a".to_string(), giant_grapheme()])));
    // Letters of one column each are counted one by one, however many there are.
    let letters = "ä".repeat(35000);
    assert!(line_fits_width(20, &line(vec![letters.clone()])));
    assert!(line_fits_width(40000, &line(vec![letters.clone(), letters.clone()])));
    assert!(line_fits_width(65534, &line(vec![letters.clone()])));
    assert!(!line_fits_width(65535, &line(vec![letters])));
    // A grapheme of 44000 columns is left out of a narrow line, but cannot be counted in a wide one.
    let wide = "\u{1100}".repeat(22000);
    assert!(line_fits_width(20, &line(vec![wide.clone()])));
    assert!(line_fits_width(43999, &line(vec![wide.clone()])));
    assert!(!line_fits_width(44000, &line(vec![wide])));
}

#[test]
fn a_grapheme_wider_than_the_note_is_left_out() {
    let top = ToastClipboardPosition::TopLeft;
    let mut buffer = screen(20, 3);
    let area = Rect::new(0, 0, 20, 3);
    let message = note(&format!("ab{}cd", "\u{1100}".repeat(22000)));
    assert!(try_render_copy_feedback_buffer(&mut buffer, area, &message, 0, top, &palette()));
    assert_eq!(rows(&buffer)[1], "│● abcd            │");
}

#[test]
fn a_note_whose_columns_cannot_be_counted_is_not_drawn() {
    let area = Rect::new(0, 0, 20, 3);
    let top = ToastClipboardPosition::TopLeft;
    let mut buffer = screen(20, 3);
    let message = note(&format!("{}{}", "a".repeat(16), giant_grapheme()));
    assert!(copy_feedback_fits(area, &message, 0, top));
    assert!(!try_render_copy_feedback_buffer(&mut buffer, area, &message, 0, top, &palette()));
    assert_eq!(buffer, screen(20, 3));

    // Without a row for its text, it is only a panel.
    let low = Rect::new(0, 0, 20, 2);
    assert!(try_render_copy_feedback_buffer(&mut buffer, low, &message, 0, top, &palette()));
    assert_eq!(rows(&buffer)[1], "└──────────────────┘");
}

#[test]
fn a_long_note_is_cut_off() {
    let top = ToastClipboardPosition::TopLeft;
    let mut buffer = screen(20, 3);
    let area = Rect::new(0, 0, 20, 3);
    let message = note(&"a".repeat(65536 + 40));
    assert!(try_render_copy_feedback_buffer(&mut buffer, area, &message, 0, top, &palette()));
    assert_eq!(rows(&buffer)[1], "│● aaaaaaaaaaaaaaaa│");

    let message = note(&"ä".repeat(35000));
    assert!(try_render_copy_feedback_buffer(&mut buffer, area, &message, 0, top, &palette()));
    assert_eq!(rows(&buffer)[1], "│● ääääääääääääääää│");

    let mut wide = screen(40000, 3);
    let area = Rect::new(0, 0, 40000, 3);
    let message = note(&"ä".repeat(30000));
    assert!(try_render_copy_feedback_buffer(&mut wide, area, &message, 0, top, &palette()));
    assert_eq!(wide[(1, 1)].symbol(), "●");
    assert_eq!(wide[(3, 1)].symbol(), "ä");
    assert_eq!(wide[(30002, 1)].symbol(), "ä");
    assert_eq!(wide[(30003, 1)].symbol(), " ");
    assert_eq!(wide[(39999, 1)].symbol(), "│");
}

#[test]
fn a_diagnostic_whose_columns_cannot_be_counted_is_not_drawn() {
    let mut buffer = screen(18, 2);
    let area = Rect::new(0, 0, 18, 2);
    let message = format!("fine\n{}{}", "a".repeat(17), giant_grapheme());
    assert!(config_diagnostic_fits(area, &message));
    assert_eq!(
        try_render_config_diagnostic_buffer(&mut buffer, area, &message, &palette()),
        None
    );
    assert_eq!(buffer, screen(18, 2));

    let long = "b".repeat(70000);
    assert_eq!(
        try_render_config_diagnostic_buffer(&mut buffer, area, &long, &palette()),
        Some(1)
    );
    assert_eq!(rows(&buffer)[0], " bbbbbbbbbbbbbbbbb");
}

/// Every printable character takes one cell, in the style of its span.
#[test]
fn plain_text_is_shown_one_character_to_a_cell() {
    let printable: String = (' '..='~').chain(['●']).collect();
    let area = Rect::new(0, 0, 110, 3);
    let mut buffer = screen(110, 3);
    let top = ToastClipboardPosition::TopLeft;
    render_copy_feedback_buffer(&mut buffer, area, &note(&printable), 0, top, &palette());
    for (k, c) in printable.chars().enumerate() {
        let cell = &buffer[(3 + k as u16, 1)];
        assert_eq!(cell.symbol(), c.to_string());
        assert_eq!((cell.fg, cell.modifier), (Color::White, Modifier::BOLD));
    }

    let mut buffer = screen(110, 1);
    let area = Rect::new(0, 0, 110, 1);
    assert_eq!(render_config_diagnostic_buffer(&mut buffer, area, &printable, &palette()), 1);
    // The bullet has three bytes, so the row is two cells wider than its text.
    let shown = format!("{} {}   ", "x".repeat(110 - 100), printable);
    assert_eq!(rows(&buffer), vec![shown]);
    let written = &buffer[(107, 0)];
    assert_eq!((written.fg, written.bg, written.modifier), (Color::Black, Color::Yellow, Modifier::BOLD));
    assert_eq!(buffer[(108, 0)], ratatui::buffer::Cell::EMPTY);
    assert_eq!(buffer[(109, 0)], ratatui::buffer::Cell::EMPTY);
}
