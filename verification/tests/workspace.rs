use std::collections::HashMap;

use herdr::clock::{Clock, Instant};
use herdr::pane::{PaneId, PaneState};
use herdr::terminal::{AgentState, TerminalId, TerminalState};
use herdr::workspace::{
    most_urgent, pane_aged_from, pane_attention_priority, AggregateStatus, Tab, Workspace,
};

fn terminal(id: TerminalId, state: AgentState) -> TerminalState {
    TerminalState {
        id,
        agent_name: None,
        agent_label: None,
        state,
        state_entered_at: Instant { nanos: 1000 + id as u128 },
        last_agent_state_change_seq: None,
        metadata_tokens: HashMap::new(),
    }
}

fn tab(number: usize, pane: PaneId) -> Tab {
    let mut tab = Tab { number, root_pane: pane, layout: vec![], panes: HashMap::new() };
    split(&mut tab, pane);
    tab
}

/// Adds a pane whose terminal has the same number.
fn split(tab: &mut Tab, pane: PaneId) {
    tab.layout.push(pane);
    tab.panes.insert(pane, PaneState::new_at(pane as TerminalId, Instant { nanos: pane as u128 }));
}

fn single_pane_workspace() -> Workspace {
    Workspace { tabs: vec![tab(1, 1)] }
}

fn terminals(of: Vec<TerminalState>) -> HashMap<TerminalId, TerminalState> {
    of.into_iter().map(|terminal| (terminal.id, terminal)).collect()
}

fn close_tab(ws: &mut Workspace, idx: usize) -> bool {
    if idx < ws.tabs.len() && ws.tabs.len() > 1 {
        ws.tabs.remove(idx);
        true
    } else {
        false
    }
}

#[test]
fn aggregate_state_all_unknown() {
    let ws = single_pane_workspace();
    let terminals = terminals(vec![terminal(1, AgentState::Unknown)]);
    let status = ws.aggregate_state(&terminals, &Clock::start());
    let (state, seen) = (status.state, status.seen);
    assert_eq!(state, AgentState::Unknown);
    assert!(seen);
}

#[test]
fn aggregate_state_priority() {
    let mut ws = single_pane_workspace();
    split(&mut ws.tabs[0], 2);
    let terminals =
        terminals(vec![terminal(1, AgentState::Idle), terminal(2, AgentState::Working)]);

    let status = ws.aggregate_state(&terminals, &Clock::start());
    let (state, seen) = (status.state, status.seen);

    assert_eq!(state, AgentState::Working);
    assert!(seen);
}

#[test]
fn aggregate_state_done_unseen_beats_working() {
    let mut ws = single_pane_workspace();
    split(&mut ws.tabs[0], 2);
    let terminals =
        terminals(vec![terminal(1, AgentState::Idle), terminal(2, AgentState::Working)]);
    let root = ws.tabs[0].panes.get_mut(&1).unwrap();
    root.seen = false;

    let status = ws.aggregate_state(&terminals, &Clock::start());
    let (state, seen) = (status.state, status.seen);

    assert_eq!(state, AgentState::Idle);
    assert!(!seen);
    assert_eq!(status.aged_from, Instant { nanos: 1001 });
}

#[test]
fn pane_details_use_tab_vector_index_not_stable_public_tab_number() {
    let mut ws = single_pane_workspace();
    ws.tabs.push(tab(2, 2));
    let removed_tab = 1;
    ws.tabs.push(tab(3, 3));
    let survivor_tab = 2;
    let survivor_pane = ws.tabs[survivor_tab].root_pane;
    assert!(close_tab(&mut ws, removed_tab));

    let mut codex = terminal(survivor_pane as TerminalId, AgentState::Unknown);
    codex.agent_label = Some("codex".to_string());
    let terminals = terminals(vec![codex]);

    let details = ws.pane_details(&terminals);
    let survivor = details
        .iter()
        .find(|detail| detail.pane_id == survivor_pane)
        .expect("surviving tab agent should be listed");

    assert_eq!(ws.tabs[1].number, 3);
    assert_eq!(survivor.tab_idx, 1);
}

#[test]
fn an_empty_workspace_is_unknown_and_ages_from_now() {
    let ws = Workspace { tabs: vec![] };
    let now = Instant { nanos: 77 };
    let status = ws.aggregate_state_at(&HashMap::new(), now);
    assert_eq!(
        status,
        AggregateStatus { state: AgentState::Unknown, seen: true, aged_from: now }
    );
}

#[test]
fn a_pane_without_its_terminal_contributes_nothing() {
    let mut ws = single_pane_workspace();
    ws.tabs.push(tab(2, 2));
    let terminals = terminals(vec![terminal(2, AgentState::Working)]);
    let status = ws.aggregate_state_at(&terminals, Instant { nanos: 0 });
    assert_eq!(status.state, AgentState::Working);
    assert!(ws.pane_details(&terminals).is_empty());

    ws.tabs.pop();
    let status = ws.aggregate_state_at(&terminals, Instant { nanos: 5 });
    assert_eq!(status.state, AgentState::Unknown);
    assert_eq!(status.aged_from, Instant { nanos: 5 });
}

#[test]
fn a_blocked_agent_in_any_tab_comes_first() {
    let mut ws = single_pane_workspace();
    ws.tabs.push(tab(2, 2));
    ws.tabs.push(tab(3, 3));
    ws.tabs[0].panes.get_mut(&1).unwrap().seen = false;
    let terminals = terminals(vec![
        terminal(1, AgentState::Idle),
        terminal(2, AgentState::Blocked),
        terminal(3, AgentState::Working),
    ]);
    let status = ws.aggregate_state_at(&terminals, Instant { nanos: 0 });
    assert_eq!(status.state, AgentState::Blocked);
    assert_eq!(status.aged_from, Instant { nanos: 2 });
}

#[test]
fn attention_is_ordered() {
    assert_eq!(pane_attention_priority(AgentState::Blocked, false), 4);
    assert_eq!(pane_attention_priority(AgentState::Blocked, true), 4);
    assert_eq!(pane_attention_priority(AgentState::Idle, false), 3);
    assert_eq!(pane_attention_priority(AgentState::Working, false), 2);
    assert_eq!(pane_attention_priority(AgentState::Working, true), 2);
    assert_eq!(pane_attention_priority(AgentState::Idle, true), 1);
    assert_eq!(pane_attention_priority(AgentState::Unknown, false), 0);
    assert_eq!(pane_attention_priority(AgentState::Unknown, true), 0);
}

#[test]
fn the_last_of_the_most_urgent_is_chosen() {
    let status = |state, nanos| AggregateStatus { state, seen: true, aged_from: Instant { nanos } };
    assert_eq!(most_urgent(&vec![]), None);
    let statuses = vec![
        status(AgentState::Working, 1),
        status(AgentState::Idle, 2),
        status(AgentState::Working, 3),
        status(AgentState::Unknown, 4),
    ];
    assert_eq!(most_urgent(&statuses), Some(status(AgentState::Working, 3)));
}

#[test]
fn ties_leave_the_headline_state_settled() {
    let mut ws = single_pane_workspace();
    for pane in 2..9 {
        split(&mut ws.tabs[0], pane);
    }
    let terminals =
        terminals((1..9).map(|id| terminal(id, AgentState::Working)).collect::<Vec<_>>());
    for _ in 0..20 {
        let status = ws.aggregate_state_at(&terminals, Instant { nanos: 0 });
        assert_eq!(status.state, AgentState::Working);
        assert!(1 <= status.aged_from.nanos && status.aged_from.nanos <= 8);
    }
    assert_eq!(ws.pane_statuses(&terminals).len(), 8);
}

/// Of equally urgent panes in several tabs, one of the last of these tabs stands for the workspace.
#[test]
fn ties_go_to_the_last_tab() {
    let mut ws = Workspace { tabs: vec![tab(1, 1), tab(2, 2), tab(3, 3), tab(4, 4)] };
    let terminals = terminals(vec![
        terminal(1, AgentState::Working),
        terminal(2, AgentState::Working),
        terminal(3, AgentState::Working),
        terminal(4, AgentState::Idle),
    ]);
    let now = Instant { nanos: 0 };
    assert_eq!(ws.aggregate_state_at(&terminals, now).aged_from, Instant { nanos: 3 });
    let order: Vec<u128> =
        ws.pane_statuses(&terminals).iter().map(|status| status.aged_from.nanos).collect();
    assert_eq!(order, vec![1, 2, 3, 4]);

    ws.tabs.swap(0, 2);
    assert_eq!(ws.aggregate_state_at(&terminals, now).aged_from, Instant { nanos: 1 });
    ws.tabs.swap(0, 3);
    assert_eq!(ws.aggregate_state_at(&terminals, now).aged_from, Instant { nanos: 3 });
}

#[test]
fn staleness_is_measured_from_the_look_or_else_from_the_result() {
    let mut pane = PaneState::new_at(1, Instant { nanos: 5 });
    let terminal = terminal(1, AgentState::Idle);
    assert_eq!(pane_aged_from(&pane, &terminal), Instant { nanos: 5 });
    pane.seen = false;
    assert_eq!(pane_aged_from(&pane, &terminal), Instant { nanos: 1001 });
}

#[test]
fn details_tell_what_is_known_of_each_agent() {
    let mut ws = Workspace { tabs: vec![tab(1, 1), tab(2, 4)] };
    split(&mut ws.tabs[0], 3);
    split(&mut ws.tabs[0], 2);
    ws.tabs[0].layout.push(99);
    ws.tabs[0].panes.get_mut(&3).unwrap().seen = false;

    let mut named = terminal(1, AgentState::Working);
    named.agent_name = Some("builder".to_string());
    named.last_agent_state_change_seq = Some(12);
    let mut recognized = terminal(3, AgentState::Idle);
    recognized.agent_label = Some("codex".to_string());
    recognized.metadata_tokens.insert("model".to_string(), "large".to_string());
    let shell = terminal(2, AgentState::Unknown);
    let mut other_tab = terminal(4, AgentState::Blocked);
    other_tab.agent_label = Some("jcode".to_string());
    let terminals = terminals(vec![named, recognized, shell, other_tab]);

    let details = ws.pane_details(&terminals);
    let ids: Vec<PaneId> = details.iter().map(|detail| detail.pane_id).collect();
    assert_eq!(ids, vec![1, 3, 4]);

    assert_eq!(details[0].agent_kind_label, None);
    assert_eq!(details[0].state, AgentState::Working);
    assert!(details[0].seen);
    assert_eq!(details[0].aged_from, Instant { nanos: 1 });
    assert_eq!(details[0].last_agent_state_change_seq, Some(12));
    assert!(details[0].tokens.is_empty());
    assert_eq!(details[0].tab_idx, 0);

    assert_eq!(details[1].agent_kind_label.as_deref(), Some("codex"));
    assert!(!details[1].seen);
    assert_eq!(details[1].aged_from, Instant { nanos: 1003 });
    assert_eq!(details[1].tokens.get("model").map(String::as_str), Some("large"));
    assert_eq!(details[1].last_agent_state_change_seq, None);

    assert_eq!(details[2].tab_idx, 1);
    assert_eq!(details[2].state, AgentState::Blocked);

    let headline = ws.aggregate_state_at(&terminals, Instant { nanos: 0 });
    let most = pane_attention_priority(headline.state, headline.seen);
    for detail in &details {
        assert!(pane_attention_priority(detail.state, detail.seen) <= most);
    }

    let first_tab = ws.tabs[0].pane_details(&terminals, 5);
    assert_eq!(first_tab.len(), 2);
    assert_eq!(first_tab[0].tab_idx, 5);
}
