use herdr::clock::{Duration, Instant};
use herdr::pane::PaneState;
use herdr::status::{
    idle_age_at, idle_age_for, state_icon, state_icon_symbol, state_label, state_label_color,
    AppState, IdleAge, Palette, StatusIndicatorStyle,
};
use herdr::terminal::AgentState;
use ratatui::style::Color;
use ratatui::text::Span;

fn catppuccin() -> Palette {
    Palette {
        red: Color::Rgb(243, 139, 168),
        yellow: Color::Rgb(249, 226, 175),
        teal: Color::Rgb(148, 226, 213),
        peach: Color::Rgb(250, 179, 135),
        green: Color::Rgb(166, 227, 161),
        overlay0: Color::Rgb(108, 112, 134),
        text: Color::Rgb(205, 214, 244),
        panel_bg: Color::Rgb(24, 24, 37),
        panel_contrast_fg: Color::Rgb(17, 17, 27),
    }
}

#[test]
fn state_icons_support_dot_and_distinct_symbol_styles() {
    let palette = catppuccin();
    for (indicator_style, expected_symbols) in [
        (
            StatusIndicatorStyle::Dots,
            ["●", "●", "●", "◉", "○", "◌", "·"],
        ),
        (
            StatusIndicatorStyle::Symbols,
            ["×", "◐", "✓", "!", "○", "◌", "·"],
        ),
    ] {
        for ((state, age, color, label), expected_symbol) in [
            (
                AgentState::Blocked,
                IdleAge::FreshSeen,
                palette.red,
                "blocked",
            ),
            (
                AgentState::Working,
                IdleAge::FreshSeen,
                palette.yellow,
                "working",
            ),
            (AgentState::Idle, IdleAge::FreshUnseen, palette.teal, "done"),
            (
                AgentState::Idle,
                IdleAge::StaleUnseen,
                palette.peach,
                "stale",
            ),
            (AgentState::Idle, IdleAge::FreshSeen, palette.green, "idle"),
            (
                AgentState::Idle,
                IdleAge::ParkedSeen,
                palette.overlay0,
                "parked",
            ),
            (
                AgentState::Unknown,
                IdleAge::FreshSeen,
                palette.overlay0,
                "idle",
            ),
        ]
        .into_iter()
        .zip(expected_symbols)
        {
            let (actual_symbol, style) = state_icon(state, age, indicator_style, &palette);
            assert_eq!(actual_symbol, expected_symbol);
            assert_eq!(Span::raw(actual_symbol).width(), 1);
            assert_eq!(style.fg, Some(color));
            assert_eq!(style.bg, None);
            assert_eq!(style.modifiers, 0);
            assert_eq!(state_label(state, age), label);
            assert_eq!(state_icon_symbol(state, age, indicator_style), expected_symbol);
            assert_eq!(state_label_color(state, age, &palette), color);
        }
    }
}

#[test]
fn idle_age_classifies_by_the_right_clock() {
    let threshold = Duration::from_secs(300);

    assert_eq!(
        idle_age_for(false, Duration::from_secs(299), threshold),
        IdleAge::FreshUnseen
    );
    assert_eq!(
        idle_age_for(true, Duration::from_secs(299), threshold),
        IdleAge::FreshSeen
    );

    // The boundary lands on the aged side: at exactly the threshold the
    // result has been sitting long enough to count.
    assert_eq!(
        idle_age_for(false, threshold, threshold),
        IdleAge::StaleUnseen
    );
    assert_eq!(
        idle_age_for(true, threshold, threshold),
        IdleAge::ParkedSeen
    );

    assert_eq!(
        idle_age_for(false, Duration::from_secs(3600), threshold),
        IdleAge::StaleUnseen
    );
    assert_eq!(
        idle_age_for(true, Duration::from_secs(3600), threshold),
        IdleAge::ParkedSeen
    );
}

#[test]
fn only_an_unseen_stale_pane_is_worth_alerting_about() {
    // The alert exists for results the user has never looked at. A seen
    // pane going parked is a deliberate choice, not something to interrupt.
    assert!(IdleAge::StaleUnseen.warrants_unread_alert());
    assert!(!IdleAge::FreshUnseen.warrants_unread_alert());
    assert!(!IdleAge::FreshSeen.warrants_unread_alert());
    assert!(!IdleAge::ParkedSeen.warrants_unread_alert());
}

fn five_minutes() -> AppState {
    AppState { idle_stale_after: Duration::from_secs(300) }
}

fn at_secs(secs: u64) -> Instant {
    Instant { nanos: Duration::from_secs(secs).nanos }
}

#[test]
fn an_age_is_measured_from_the_moment_given() {
    let app = five_minutes();
    assert_eq!(idle_age_at(&app, false, at_secs(100), at_secs(399)), IdleAge::FreshUnseen);
    assert_eq!(idle_age_at(&app, false, at_secs(100), at_secs(400)), IdleAge::StaleUnseen);
    assert_eq!(idle_age_at(&app, true, at_secs(100), at_secs(399)), IdleAge::FreshSeen);
    assert_eq!(idle_age_at(&app, true, at_secs(100), at_secs(400)), IdleAge::ParkedSeen);
    // A moment still to come has no age.
    assert_eq!(idle_age_at(&app, false, at_secs(9000), at_secs(100)), IdleAge::FreshUnseen);
}

#[test]
fn once_aged_a_pane_stays_aged() {
    let app = five_minutes();
    for now in [400, 401, 1000, 100_000] {
        assert_eq!(idle_age_at(&app, false, at_secs(100), at_secs(now)), IdleAge::StaleUnseen);
        assert_eq!(idle_age_at(&app, true, at_secs(100), at_secs(now)), IdleAge::ParkedSeen);
    }
}

#[test]
fn a_glance_keeps_a_pane_out_of_the_parked_ones() {
    let app = five_minutes();
    let mut pane = PaneState::new_at(1, at_secs(0));
    assert_eq!(idle_age_at(&app, pane.seen, pane.seen_at, at_secs(1000)), IdleAge::ParkedSeen);
    pane.mark_seen(at_secs(900));
    assert_eq!(idle_age_at(&app, pane.seen, pane.seen_at, at_secs(1000)), IdleAge::FreshSeen);
}

#[test]
fn the_age_of_an_agent_that_is_not_idle_does_not_show() {
    let palette = catppuccin();
    for state in [AgentState::Blocked, AgentState::Working, AgentState::Unknown] {
        for age in [IdleAge::FreshUnseen, IdleAge::StaleUnseen, IdleAge::ParkedSeen] {
            assert_eq!(state_label(state, age), state_label(state, IdleAge::FreshSeen));
            assert_eq!(
                state_label_color(state, age, &palette),
                state_label_color(state, IdleAge::FreshSeen, &palette)
            );
            for style in [StatusIndicatorStyle::Dots, StatusIndicatorStyle::Symbols] {
                assert_eq!(
                    state_icon_symbol(state, age, style),
                    state_icon_symbol(state, IdleAge::FreshSeen, style)
                );
            }
        }
    }
}
