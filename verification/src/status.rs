//! How the status of an agent ages, and how it is spelled and coloured.

use ratatui::style::Color;
use vstd::prelude::*;

use crate::clock::{Duration, Instant};
use crate::pane::PaneState;
use crate::screen::Style;
use crate::terminal::{AgentState, TerminalState};
use crate::workspace::aged_from;

verus! {

/// How long an idle pane has been that way, and whether the user has looked.
///
/// An unseen pane is aged from when its result appeared, so its age says how long the result has
/// been sitting unread. A seen pane is aged from the last look, so glancing at it keeps it out of
/// the parked ones.
#[derive(Debug, Clone, Copy, PartialEq, Eq, Structural)]
pub enum IdleAge {
    /// Finished recently, and the user has not looked yet.
    FreshUnseen,
    /// Finished a while ago, and the user still has not looked.
    StaleUnseen,
    /// The user looked recently: still in the working set.
    FreshSeen,
    /// The user looked a while ago and left it alone: deliberately parked.
    ParkedSeen,
}

/// The age of an idle pane, given whether it was seen and whether the threshold has passed.
pub open spec fn idle_age(seen: bool, aged: bool) -> IdleAge {
    if seen {
        if aged {
            IdleAge::ParkedSeen
        } else {
            IdleAge::FreshSeen
        }
    } else {
        if aged {
            IdleAge::StaleUnseen
        } else {
            IdleAge::FreshUnseen
        }
    }
}

impl IdleAge {
    /// Whether this age is worth interrupting the user about.
    ///
    /// Only an unread result is. A pane that the user looked at and left is a deliberate choice.
    pub fn warrants_unread_alert(self) -> (warrants: bool)
        ensures
            warrants == (self == IdleAge::StaleUnseen),
    {
        matches!(self, IdleAge::StaleUnseen)
    }
}

/// The settings that ageing depends on.
pub struct AppState {
    /// How long an idle pane stays fresh.
    pub idle_stale_after: Duration,
}

impl AppState {
    /// The age, at `now`, of an idle pane whose staleness is measured from `from`.
    pub open spec fn idle_age(self, seen: bool, from: Instant, now: Instant) -> IdleAge {
        idle_age(seen, now.nanos_since(from) >= self.idle_stale_after.nanos)
    }
}

/// Resolves the age of one idle pane at `now`.
///
/// `aged_from` is whichever clock applies to the pane. The caller supplies `now`, so that a whole
/// frame is classified against one instant.
pub fn idle_age_at(app: &AppState, seen: bool, aged_from: Instant, now: Instant) -> (age: IdleAge)
    ensures
        age == app.idle_age(seen, aged_from, now),
{
    idle_age_for(seen, now.saturating_duration_since(aged_from), app.idle_stale_after)
}

/// Classifies an idle pane by whether it was seen and by the time elapsed on whichever clock
/// applies. At exactly the threshold a pane counts as aged.
pub fn idle_age_for(seen: bool, elapsed: Duration, threshold: Duration) -> (age: IdleAge)
    ensures
        age == idle_age(seen, elapsed.nanos >= threshold.nanos),
        elapsed.nanos < threshold.nanos ==> age == if seen {
            IdleAge::FreshSeen
        } else {
            IdleAge::FreshUnseen
        },
        elapsed.nanos >= threshold.nanos ==> age == if seen {
            IdleAge::ParkedSeen
        } else {
            IdleAge::StaleUnseen
        },
{
    match (seen, elapsed.nanos >= threshold.nanos) {
        (false, false) => IdleAge::FreshUnseen,
        (false, true) => IdleAge::StaleUnseen,
        (true, false) => IdleAge::FreshSeen,
        (true, true) => IdleAge::ParkedSeen,
    }
}

/// Which set of symbols stands for a status.
#[derive(Debug, Clone, Copy, PartialEq, Eq, Structural)]
pub enum StatusIndicatorStyle {
    Dots,
    Symbols,
}

/// The colours of the interface.
#[derive(Debug)]
pub struct Palette {
    pub red: Color,
    pub yellow: Color,
    pub teal: Color,
    pub peach: Color,
    pub green: Color,
    pub overlay0: Color,
    pub text: Color,
    pub panel_bg: Color,
    /// Foreground that reads well on the bright colours.
    pub panel_contrast_fg: Color,
}

/// The symbol for a status. The age matters only for an idle agent.
pub open spec fn icon_symbol(
    state: AgentState,
    age: IdleAge,
    indicator_style: StatusIndicatorStyle,
) -> Seq<char> {
    match indicator_style {
        StatusIndicatorStyle::Dots => match state {
            AgentState::Blocked => "●"@,
            AgentState::Working => "●"@,
            AgentState::Idle => match age {
                IdleAge::FreshUnseen => "●"@,
                IdleAge::StaleUnseen => "◉"@,
                IdleAge::FreshSeen => "○"@,
                IdleAge::ParkedSeen => "◌"@,
            },
            AgentState::Unknown => "·"@,
        },
        StatusIndicatorStyle::Symbols => match state {
            AgentState::Blocked => "×"@,
            AgentState::Working => "◐"@,
            AgentState::Idle => match age {
                IdleAge::FreshUnseen => "✓"@,
                IdleAge::StaleUnseen => "!"@,
                IdleAge::FreshSeen => "○"@,
                IdleAge::ParkedSeen => "◌"@,
            },
            AgentState::Unknown => "·"@,
        },
    }
}

pub fn state_icon_symbol(
    state: AgentState,
    age: IdleAge,
    indicator_style: StatusIndicatorStyle,
) -> (symbol: &'static str)
    ensures
        symbol@ == icon_symbol(state, age, indicator_style),
{
    match (indicator_style, state, age) {
        (StatusIndicatorStyle::Dots, AgentState::Blocked, _) => "●",
        (StatusIndicatorStyle::Dots, AgentState::Working, _) => "●",
        (StatusIndicatorStyle::Dots, AgentState::Idle, IdleAge::FreshUnseen) => "●",
        (StatusIndicatorStyle::Dots, AgentState::Idle, IdleAge::StaleUnseen) => "◉",
        (StatusIndicatorStyle::Dots, AgentState::Idle, IdleAge::FreshSeen) => "○",
        (StatusIndicatorStyle::Dots, AgentState::Idle, IdleAge::ParkedSeen) => "◌",
        (StatusIndicatorStyle::Dots, AgentState::Unknown, _) => "·",
        (StatusIndicatorStyle::Symbols, AgentState::Blocked, _) => "×",
        (StatusIndicatorStyle::Symbols, AgentState::Working, _) => "◐",
        (StatusIndicatorStyle::Symbols, AgentState::Idle, IdleAge::FreshUnseen) => "✓",
        (StatusIndicatorStyle::Symbols, AgentState::Idle, IdleAge::StaleUnseen) => "!",
        (StatusIndicatorStyle::Symbols, AgentState::Idle, IdleAge::FreshSeen) => "○",
        (StatusIndicatorStyle::Symbols, AgentState::Idle, IdleAge::ParkedSeen) => "◌",
        (StatusIndicatorStyle::Symbols, AgentState::Unknown, _) => "·",
    }
}

/// The symbol for a status and the style to draw it in.
pub fn state_icon(
    state: AgentState,
    age: IdleAge,
    indicator_style: StatusIndicatorStyle,
    p: &Palette,
) -> (icon: (&'static str, Style))
    ensures
        icon.0@ == icon_symbol(state, age, indicator_style),
        icon.1 == (Style { fg: Some(label_color(state, age, *p)), bg: None, modifiers: 0 }),
{
    (
        state_icon_symbol(state, age, indicator_style),
        Style { fg: Some(state_label_color(state, age, p)), bg: None, modifiers: 0 },
    )
}

/// The word for a status. An agent that is not known reads as idle.
pub open spec fn label(state: AgentState, age: IdleAge) -> Seq<char> {
    match state {
        AgentState::Blocked => "blocked"@,
        AgentState::Working => "working"@,
        AgentState::Idle => match age {
            IdleAge::FreshUnseen => "done"@,
            IdleAge::StaleUnseen => "stale"@,
            IdleAge::FreshSeen => "idle"@,
            IdleAge::ParkedSeen => "parked"@,
        },
        AgentState::Unknown => "idle"@,
    }
}

pub fn state_label(state: AgentState, age: IdleAge) -> (word: &'static str)
    ensures
        word@ == label(state, age),
{
    match (state, age) {
        (AgentState::Blocked, _) => "blocked",
        (AgentState::Working, _) => "working",
        (AgentState::Idle, IdleAge::FreshUnseen) => "done",
        (AgentState::Idle, IdleAge::StaleUnseen) => "stale",
        (AgentState::Idle, IdleAge::FreshSeen) => "idle",
        (AgentState::Idle, IdleAge::ParkedSeen) => "parked",
        (AgentState::Unknown, _) => "idle",
    }
}

/// The colour for a status.
pub open spec fn label_color(state: AgentState, age: IdleAge, p: Palette) -> Color {
    match state {
        AgentState::Blocked => p.red,
        AgentState::Working => p.yellow,
        AgentState::Idle => match age {
            IdleAge::FreshUnseen => p.teal,
            IdleAge::StaleUnseen => p.peach,
            IdleAge::FreshSeen => p.green,
            IdleAge::ParkedSeen => p.overlay0,
        },
        AgentState::Unknown => p.overlay0,
    }
}

pub fn state_label_color(state: AgentState, age: IdleAge, p: &Palette) -> (color: Color)
    ensures
        color == label_color(state, age, *p),
{
    match (state, age) {
        (AgentState::Blocked, _) => p.red,
        (AgentState::Working, _) => p.yellow,
        (AgentState::Idle, IdleAge::FreshUnseen) => p.teal,
        (AgentState::Idle, IdleAge::StaleUnseen) => p.peach,
        (AgentState::Idle, IdleAge::FreshSeen) => p.green,
        (AgentState::Idle, IdleAge::ParkedSeen) => p.overlay0,
        (AgentState::Unknown, _) => p.overlay0,
    }
}

/// A glance keeps a pane fresh: it is in the working set from the look until the threshold has
/// passed since, whatever its terminal did before, and parked from then on.
pub proof fn law_a_look_keeps_a_pane_fresh(
    app: AppState,
    pane: PaneState,
    terminal: TerminalState,
    look: Instant,
    now: Instant,
)
    ensures
        ({
            let looked = pane.looked_at(look);
            app.idle_age(looked.seen, aged_from(looked, terminal), now) == if now.nanos_since(look)
                < app.idle_stale_after.nanos {
                IdleAge::FreshSeen
            } else {
                IdleAge::ParkedSeen
            }
        }),
{
}

/// An age tells whether the user has looked: the ages of seen and of unseen panes never meet.
pub proof fn law_an_age_tells_whether_a_pane_was_seen(
    app: AppState,
    seen: bool,
    from: Instant,
    now: Instant,
)
    ensures
        ({
            let age = app.idle_age(seen, from, now);
            seen <==> age == IdleAge::FreshSeen || age == IdleAge::ParkedSeen
        }),
{
}

/// An alert is due exactly for a result that has not been looked at and has been there for the
/// threshold or longer. In particular a look silences it.
pub proof fn law_alert_only_for_unread_results(
    app: AppState,
    pane: PaneState,
    terminal: TerminalState,
    now: Instant,
)
    ensures
        app.idle_age(pane.seen, aged_from(pane, terminal), now) == IdleAge::StaleUnseen <==> (
        !pane.seen && now.nanos_since(terminal.state_entered_at) >= app.idle_stale_after.nanos),
{
}

/// Without a look in between, an idle pane only ever ages.
pub proof fn law_idle_panes_only_age(
    app: AppState,
    seen: bool,
    from: Instant,
    now: Instant,
    later: Instant,
)
    requires
        now.nanos <= later.nanos,
    ensures
        app.idle_age(seen, from, now) == IdleAge::StaleUnseen ==> app.idle_age(seen, from, later)
            == IdleAge::StaleUnseen,
        app.idle_age(seen, from, now) == IdleAge::ParkedSeen ==> app.idle_age(seen, from, later)
            == IdleAge::ParkedSeen,
{
}

/// The age matters only for an idle agent.
pub proof fn law_age_matters_only_when_idle(
    state: AgentState,
    one: IdleAge,
    other: IdleAge,
    indicator_style: StatusIndicatorStyle,
    p: Palette,
)
    requires
        state != AgentState::Idle,
    ensures
        icon_symbol(state, one, indicator_style) == icon_symbol(state, other, indicator_style),
        label(state, one) == label(state, other),
        label_color(state, one, p) == label_color(state, other, p),
{
}

/// Every symbol is a single character.
pub proof fn law_symbols_are_single_characters(
    state: AgentState,
    age: IdleAge,
    indicator_style: StatusIndicatorStyle,
)
    ensures
        icon_symbol(state, age, indicator_style).len() == 1,
{
    lemma_reveal_symbols();
}

/// In the symbol style, different states and, of idle agents, different ages have different
/// symbols.
pub proof fn law_symbol_style_tells_statuses_apart(
    state: AgentState,
    age: IdleAge,
    other_state: AgentState,
    other_age: IdleAge,
)
    requires
        icon_symbol(state, age, StatusIndicatorStyle::Symbols) == icon_symbol(
            other_state,
            other_age,
            StatusIndicatorStyle::Symbols,
        ),
    ensures
        state == other_state,
        state == AgentState::Idle ==> age == other_age,
{
    lemma_reveal_symbols();
    let one = icon_symbol(state, age, StatusIndicatorStyle::Symbols)[0];
    let other = icon_symbol(other_state, other_age, StatusIndicatorStyle::Symbols)[0];
    assert(one == other);
}

/// The words for the ages of an idle agent differ.
pub proof fn law_labels_tell_ages_apart(age: IdleAge, other: IdleAge)
    requires
        label(AgentState::Idle, age) == label(AgentState::Idle, other),
    ensures
        age == other,
{
    reveal_strlit("done");
    reveal_strlit("stale");
    reveal_strlit("idle");
    reveal_strlit("parked");
    assert("done"@[0] == 'd' && "stale"@[0] == 's' && "idle"@[0] == 'i' && "parked"@[0] == 'p');
}

/// What the symbols are.
proof fn lemma_reveal_symbols()
    ensures
        "●"@ == seq!['●'],
        "◉"@ == seq!['◉'],
        "○"@ == seq!['○'],
        "◌"@ == seq!['◌'],
        "·"@ == seq!['·'],
        "×"@ == seq!['×'],
        "◐"@ == seq!['◐'],
        "✓"@ == seq!['✓'],
        "!"@ == seq!['!'],
{
    reveal_strlit("●");
    reveal_strlit("◉");
    reveal_strlit("○");
    reveal_strlit("◌");
    reveal_strlit("·");
    reveal_strlit("×");
    reveal_strlit("◐");
    reveal_strlit("✓");
    reveal_strlit("!");
}

/// An idle pane turns from fresh to aged at the very moment when the threshold has passed since the
/// moment it ages from, and whether it was seen says which of the fresh and aged ones it is.
pub proof fn law_a_pane_ages_at_its_threshold(
    app: AppState,
    seen: bool,
    from: Instant,
    now: Instant,
)
    ensures
        ({
            let age = app.idle_age(seen, from, now);
            let threshold = app.idle_stale_after.nanos;
            let aged = from.nanos + threshold <= now.nanos || threshold == 0;
            &&& age == IdleAge::FreshUnseen <==> !seen && !aged
            &&& age == IdleAge::StaleUnseen <==> !seen && aged
            &&& age == IdleAge::FreshSeen <==> seen && !aged
            &&& age == IdleAge::ParkedSeen <==> seen && aged
        }),
{
}

/// What each status is called: an idle agent by its age, one that is not known like an idle one
/// that was seen lately, and any other by its state alone.
pub proof fn law_words_of_the_statuses(state: AgentState, age: IdleAge)
    ensures
        state == AgentState::Blocked ==> label(state, age) == seq!['b', 'l', 'o', 'c', 'k', 'e', 'd'],
        state == AgentState::Working ==> label(state, age) == seq!['w', 'o', 'r', 'k', 'i', 'n', 'g'],
        state == AgentState::Unknown ==> label(state, age) == seq!['i', 'd', 'l', 'e'],
        state == AgentState::Idle && age == IdleAge::FreshUnseen ==> label(state, age) == seq!['d', 'o', 'n', 'e'],
        state == AgentState::Idle && age == IdleAge::StaleUnseen ==> label(state, age) == seq!['s', 't', 'a', 'l', 'e'],
        state == AgentState::Idle && age == IdleAge::FreshSeen ==> label(state, age) == seq!['i', 'd', 'l', 'e'],
        state == AgentState::Idle && age == IdleAge::ParkedSeen ==> label(state, age) == seq!['p', 'a', 'r', 'k', 'e', 'd'],
{
    reveal_strlit("blocked");
    reveal_strlit("working");
    reveal_strlit("done");
    reveal_strlit("stale");
    reveal_strlit("idle");
    reveal_strlit("parked");
}

/// What each status looks like in the style of dots: a full dot asks for attention or is at work, a
/// ring does not, and the marked ones have aged.
pub proof fn law_dots_of_the_statuses(state: AgentState, age: IdleAge)
    ensures
        ({
            let symbol = icon_symbol(state, age, StatusIndicatorStyle::Dots);
            &&& symbol == seq!['●'] <==> state == AgentState::Blocked || state
                == AgentState::Working || state == AgentState::Idle && age == IdleAge::FreshUnseen
            &&& symbol == seq!['◉'] <==> state == AgentState::Idle && age == IdleAge::StaleUnseen
            &&& symbol == seq!['○'] <==> state == AgentState::Idle && age == IdleAge::FreshSeen
            &&& symbol == seq!['◌'] <==> state == AgentState::Idle && age == IdleAge::ParkedSeen
            &&& symbol == seq!['·'] <==> state == AgentState::Unknown
        }),
{
    lemma_reveal_symbols();
    assert(seq!['●'][0] == '●' && seq!['◉'][0] == '◉' && seq!['○'][0] == '○');
    assert(seq!['◌'][0] == '◌' && seq!['·'][0] == '·');
}

/// What each status looks like in the style of symbols.
pub proof fn law_symbols_of_the_statuses(state: AgentState, age: IdleAge)
    ensures
        ({
            let symbol = icon_symbol(state, age, StatusIndicatorStyle::Symbols);
            &&& state == AgentState::Blocked ==> symbol == seq!['×']
            &&& state == AgentState::Working ==> symbol == seq!['◐']
            &&& state == AgentState::Unknown ==> symbol == seq!['·']
            &&& state == AgentState::Idle && age == IdleAge::FreshUnseen ==> symbol == seq!['✓']
            &&& state == AgentState::Idle && age == IdleAge::StaleUnseen ==> symbol == seq!['!']
            &&& state == AgentState::Idle && age == IdleAge::FreshSeen ==> symbol == seq!['○']
            &&& state == AgentState::Idle && age == IdleAge::ParkedSeen ==> symbol == seq!['◌']
        }),
{
    lemma_reveal_symbols();
}

/// Which colour of the palette each status has.
pub proof fn law_colours_of_the_statuses(state: AgentState, age: IdleAge, p: Palette)
    ensures
        state == AgentState::Blocked ==> label_color(state, age, p) == p.red,
        state == AgentState::Working ==> label_color(state, age, p) == p.yellow,
        state == AgentState::Unknown ==> label_color(state, age, p) == p.overlay0,
        state == AgentState::Idle && age == IdleAge::FreshUnseen ==> label_color(state, age, p)
            == p.teal,
        state == AgentState::Idle && age == IdleAge::StaleUnseen ==> label_color(state, age, p)
            == p.peach,
        state == AgentState::Idle && age == IdleAge::FreshSeen ==> label_color(state, age, p)
            == p.green,
        state == AgentState::Idle && age == IdleAge::ParkedSeen ==> label_color(state, age, p)
            == p.overlay0,
{
}

/// At any moment, a pane that was just looked at reads as fresh for as long as the threshold after
/// the look, and one whose result is unread goes by when the result appeared.
pub proof fn law_the_clock_of_a_pane(
    app: AppState,
    pane: PaneState,
    terminal: TerminalState,
    now: Instant,
)
    requires
        app.idle_stale_after.nanos > 0,
    ensures
        ({
            let age = app.idle_age(pane.seen, aged_from(pane, terminal), now);
            let threshold = app.idle_stale_after.nanos;
            &&& pane.seen && now.nanos < pane.seen_at.nanos + threshold ==> age
                == IdleAge::FreshSeen
            &&& pane.seen && now.nanos >= pane.seen_at.nanos + threshold ==> age
                == IdleAge::ParkedSeen
            &&& !pane.seen && now.nanos < terminal.state_entered_at.nanos + threshold ==> age
                == IdleAge::FreshUnseen
            &&& !pane.seen && now.nanos >= terminal.state_entered_at.nanos + threshold ==> age
                == IdleAge::StaleUnseen
        }),
{
}

} // verus!
