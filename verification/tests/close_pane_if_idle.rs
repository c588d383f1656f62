use std::collections::HashMap;

use herdr::clock::Instant;
use herdr::keys::{
    close_focused_pane_if_idle_requested, ActionKeybinds, Config, KeyCode, Keybinds, TerminalKey,
    ALT, CONTROL, SHIFT,
};
use herdr::pane::PaneState;
use herdr::terminal::{AgentState, TerminalState};
use herdr::workspace::Tab;

fn focused_terminal() -> TerminalState {
    TerminalState {
        id: 1,
        agent_name: None,
        agent_label: None,
        state: AgentState::Unknown,
        state_entered_at: Instant { nanos: 0 },
        last_agent_state_change_seq: None,
        metadata_tokens: HashMap::new(),
    }
}

fn alt_x() -> TerminalKey {
    TerminalKey::new(KeyCode::Char('x'), ALT)
}

fn bound(chord: &str) -> Keybinds {
    Keybinds { close_pane_if_idle: ActionKeybinds::direct(chord) }
}

fn parse_config(text: &str) -> Config {
    let table: toml::Table = toml::from_str(text).expect("parse config");
    Config {
        close_pane_if_idle: table
            .get("keys")
            .and_then(|keys| keys.get("close_pane_if_idle"))
            .and_then(|chord| chord.as_str())
            .map(str::to_string),
    }
}

/// Unbound by default: the action closes a pane on a bare chord, so it must be
/// an explicit opt-in rather than something a user discovers by accident.
#[test]
fn close_pane_if_idle_is_unbound_by_default() {
    let kb = Config::default().keybinds();
    assert!(
        kb.close_pane_if_idle.bindings.is_empty(),
        "close_pane_if_idle must be opt-in"
    );
}

#[test]
fn close_pane_if_idle_tests_close_pane_if_idle_is_unbound_by_default() {
    let kb = Config::default().keybinds();
    assert!(
        kb.close_pane_if_idle.bindings.is_empty(),
        "close_pane_if_idle must be opt-in"
    );
}

/// A bare `alt+x` is accepted rather than rejected as an unsafe direct binding:
/// it carries a modifier, so it cannot swallow ordinary typing.
#[test]
fn close_pane_if_idle_accepts_a_bare_alt_chord_from_config() {
    let config = parse_config(
        r#"
[keys]
close_pane_if_idle = "alt+x"
"#,
    );
    let kb = config.keybinds();

    assert!(
        kb.close_pane_if_idle.matches_direct_key(&alt_x()),
        "alt+x should bind directly"
    );
}

#[test]
fn close_pane_if_idle_tests_close_pane_if_idle_accepts_a_bare_alt_chord_from_config() {
    let config = parse_config(
        r#"
[keys]
close_pane_if_idle = "alt+x"
"#,
    );
    let kb = config.keybinds();

    assert!(
        kb.close_pane_if_idle.matches_direct_key(&alt_x()),
        "alt+x should bind directly"
    );
}

/// The key must not be consumed when it is not bound at all, or every session
/// without the binding would lose Alt+X in its panes.
#[test]
fn unbound_chord_is_not_consumed() {
    let kb = Config::default().keybinds();
    assert!(
        !close_focused_pane_if_idle_requested(&kb, Some(&focused_terminal()), true, &alt_x()),
        "an unbound chord must fall through to the pane"
    );
}

/// A pane running an agent must receive the chord itself, so the agent can act
/// on it.
#[test]
fn chord_passes_through_to_a_pane_hosting_an_agent() {
    let kb = bound("alt+x");
    let mut terminal = focused_terminal();
    terminal.agent_name = Some("jcode".into());
    assert!(
        !close_focused_pane_if_idle_requested(&kb, Some(&terminal), true, &alt_x()),
        "a pane hosting an agent must keep receiving the chord"
    );
    terminal.agent_name = None;
    terminal.agent_label = Some("jcode".into());
    assert!(
        !close_focused_pane_if_idle_requested(&kb, Some(&terminal), true, &alt_x()),
        "a pane hosting an agent must keep receiving the chord"
    );
}

/// Fail-closed: with no focused pane there is nothing to prove idle, so the
/// chord is not consumed and certainly does not close anything.
#[test]
fn chord_is_not_consumed_without_a_focused_pane() {
    assert!(
        !close_focused_pane_if_idle_requested(&bound("alt+x"), None, true, &alt_x()),
        "no focused pane means nothing to close"
    );
}

/// A different chord must never trigger the action, even when the pane is idle.
#[test]
fn a_different_chord_does_not_close_an_idle_pane() {
    let other = TerminalKey::new(KeyCode::Char('y'), ALT);
    assert!(
        !close_focused_pane_if_idle_requested(
            &bound("alt+x"),
            Some(&focused_terminal()),
            true,
            &other
        ),
        "only the bound chord may close the pane"
    );
}

#[test]
fn idle_pane_is_closed_and_the_chord_is_consumed() {
    assert!(
        close_focused_pane_if_idle_requested(
            &bound("alt+x"),
            Some(&focused_terminal()),
            true,
            &alt_x()
        ),
        "an idle pane must consume the chord and close"
    );
}

/// The chord reaches any program that owns the pane, recognized or not.
#[test]
fn chord_passes_through_to_a_pane_running_a_program() {
    assert!(!close_focused_pane_if_idle_requested(
        &bound("alt+x"),
        Some(&focused_terminal()),
        false,
        &alt_x()
    ));
}

/// A pane that the agent panel lists is one that keeps the chord.
#[test]
fn a_listed_pane_keeps_the_chord() {
    let now = Instant { nanos: 0 };
    let mut terminal = focused_terminal();
    terminal.agent_label = Some("codex".to_string());
    let tab = Tab {
        number: 1,
        root_pane: 5,
        layout: vec![5],
        panes: HashMap::from([(5, PaneState::new_at(1, now))]),
    };
    let terminals = HashMap::from([(1, terminal)]);
    assert_eq!(tab.pane_details(&terminals, 0).len(), 1);
    let listed = terminals.get(&1);
    assert!(!close_focused_pane_if_idle_requested(&bound("alt+x"), listed, true, &alt_x()));
}

#[test]
fn a_chord_without_a_modifier_binds_nothing() {
    for chord in ["x", "", "alt+", "alt", "x+alt", "meta+x", "alt+xy", "ALT+x"] {
        assert!(ActionKeybinds::direct(chord).bindings.is_empty(), "{}", chord);
    }
}

/// With shift alone a capital is typed, so shift alone does not make a chord safe.
#[test]
fn a_chord_with_shift_alone_binds_nothing() {
    for chord in ["shift+X", "shift+x", "shift+ä", "shift+shift+x"] {
        assert!(ActionKeybinds::direct(chord).bindings.is_empty(), "{}", chord);
    }
}

#[test]
fn any_character_can_be_bound_with_alt_alone() {
    for c in ['x', 'X', '+', ' ', 'ä', '\u{1f980}'] {
        assert_eq!(
            ActionKeybinds::direct(&format!("alt+{}", c)).bindings,
            vec![TerminalKey::new(KeyCode::Char(c), ALT)]
        );
    }
}

#[test]
fn modifiers_of_a_chord_add_up() {
    let keys = |chord| ActionKeybinds::direct(chord).bindings;
    assert_eq!(keys("ctrl+a"), vec![TerminalKey::new(KeyCode::Char('a'), CONTROL)]);
    assert_eq!(keys("shift+alt+ä"), vec![TerminalKey::new(KeyCode::Char('ä'), SHIFT | ALT)]);
    assert_eq!(keys("ctrl+alt+x"), vec![TerminalKey::new(KeyCode::Char('x'), CONTROL | ALT)]);
    assert_eq!(
        keys("alt+shift+ctrl++"),
        vec![TerminalKey::new(KeyCode::Char('+'), SHIFT | CONTROL | ALT)]
    );
}

#[test]
fn a_bound_chord_matches_only_with_its_modifiers() {
    let kb = bound("alt+x");
    assert!(!kb.close_pane_if_idle.matches_direct_key(&TerminalKey::new(KeyCode::Char('x'), 0)));
    assert!(!kb
        .close_pane_if_idle
        .matches_direct_key(&TerminalKey::new(KeyCode::Char('x'), ALT | SHIFT)));
    assert!(!kb.close_pane_if_idle.matches_direct_key(&TerminalKey::new(KeyCode::Enter, ALT)));
    assert!(ActionKeybinds::unbound().bindings.is_empty());
}
