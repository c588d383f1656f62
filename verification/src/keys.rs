//! The chord that closes a pane once nothing is running in it.

use vstd::prelude::*;

use crate::pane::{PaneId, PaneState};
use crate::terminal::{TerminalId, TerminalState};
use crate::text::chars_of;
use crate::workspace::listed_pane;

verus! {

/// The modifier bit for the shift key.
pub const SHIFT: u8 = 1;

/// The modifier bit for the control key.
pub const CONTROL: u8 = 2;

/// The modifier bit for the alt key.
pub const ALT: u8 = 4;

/// A key of the keyboard.
#[derive(Debug, Clone, Copy, PartialEq, Eq, Structural)]
pub enum KeyCode {
    Char(char),
    F(u8),
    Backspace,
    Enter,
    Left,
    Right,
    Up,
    Down,
    Home,
    End,
    PageUp,
    PageDown,
    Tab,
    BackTab,
    Delete,
    Insert,
    Esc,
}

/// A key with the modifiers held while it is pressed.
#[derive(Debug, Clone, Copy, PartialEq, Eq, Structural)]
pub struct TerminalKey {
    pub code: KeyCode,
    pub modifiers: u8,
}

impl TerminalKey {
    pub fn new(code: KeyCode, modifiers: u8) -> (key: TerminalKey)
        ensures
            key == (TerminalKey { code, modifiers }),
    {
        TerminalKey { code, modifiers }
    }
}

/// Whether `word` stands at position `at` of `text`.
pub open spec fn stands_at(text: Seq<char>, at: int, word: Seq<char>) -> bool {
    at + word.len() <= text.len() && text.subrange(at, at + word.len()) == word
}

/// A chord with one more modifier.
pub open spec fn with_modifier(chord: Option<TerminalKey>, modifier: u8) -> Option<TerminalKey> {
    match chord {
        Some(key) => Some(TerminalKey { modifiers: key.modifiers | modifier, ..key }),
        None => None,
    }
}

/// The chord that `text` spells from position `at` on: modifiers, each followed by a plus sign,
/// and then a single character.
pub open spec fn chord_from(text: Seq<char>, at: int) -> Option<TerminalKey>
    decreases text.len() - at,
{
    if at < 0 || at >= text.len() {
        None
    } else if at == text.len() - 1 {
        Some(TerminalKey { code: KeyCode::Char(text[at]), modifiers: 0 })
    } else if stands_at(text, at, seq!['c', 't', 'r', 'l', '+']) {
        with_modifier(chord_from(text, at + 5), CONTROL)
    } else if stands_at(text, at, seq!['a', 'l', 't', '+']) {
        with_modifier(chord_from(text, at + 4), ALT)
    } else if stands_at(text, at, seq!['s', 'h', 'i', 'f', 't', '+']) {
        with_modifier(chord_from(text, at + 6), SHIFT)
    } else {
        None
    }
}

/// Whether the control or the alt key is held. A character pressed without them is typed.
pub open spec fn is_command(key: TerminalKey) -> bool {
    key.modifiers & (CONTROL | ALT) != 0
}

/// The keys that `text` binds directly. A chord without control or alt would swallow ordinary
/// typing, so it binds nothing, and neither does text that spells no chord.
pub open spec fn direct_bindings(text: Seq<char>) -> Seq<TerminalKey> {
    match chord_from(text, 0) {
        Some(key) => if is_command(key) {
            seq![key]
        } else {
            Seq::empty()
        },
        None => Seq::empty(),
    }
}

/// Whether `word` stands at position `at` of `text`.
fn word_stands_at(text: &Vec<char>, at: usize, word: &Vec<char>) -> (stands: bool)
    requires
        at <= text@.len(),
    ensures
        stands == stands_at(text@, at as int, word@),
{
    let len: usize = text.len();
    if len - at < word.len() {
        return false;
    }
    let ghost part = text@.subrange(at as int, at + word@.len());
    let mut i: usize = 0;
    while i < word.len()
        invariant
            at + word@.len() <= text@.len() == len,
            part == text@.subrange(at as int, at + word@.len()),
            i <= word@.len(),
            forall|j: int| 0 <= j < i ==> part[j] == word@[j],
        decreases word@.len() - i,
    {
        if text[at + i] != word[i] {
            assert(part[i as int] != word@[i as int]);
            return false;
        }
        i += 1;
    }
    assert(part =~= word@);
    true
}

/// Reads the chord that `text` spells from position `at` on.
fn read_chord(text: &Vec<char>, at: usize) -> (chord: Option<TerminalKey>)
    requires
        at <= text@.len(),
    ensures
        chord == chord_from(text@, at as int),
    decreases text@.len() - at,
{
    if at >= text.len() {
        return None;
    }
    if at == text.len() - 1 {
        return Some(TerminalKey { code: KeyCode::Char(text[at]), modifiers: 0 });
    }
    let control = vec!['c', 't', 'r', 'l', '+'];
    let alt = vec!['a', 'l', 't', '+'];
    let shift = vec!['s', 'h', 'i', 'f', 't', '+'];
    assert(control@ =~= seq!['c', 't', 'r', 'l', '+']);
    assert(alt@ =~= seq!['a', 'l', 't', '+']);
    assert(shift@ =~= seq!['s', 'h', 'i', 'f', 't', '+']);
    let (modifier, rest): (u8, usize) = if word_stands_at(text, at, &control) {
        (CONTROL, at + 5)
    } else if word_stands_at(text, at, &alt) {
        (ALT, at + 4)
    } else if word_stands_at(text, at, &shift) {
        (SHIFT, at + 6)
    } else {
        return None;
    };
    match read_chord(text, rest) {
        Some(key) => Some(TerminalKey { code: key.code, modifiers: key.modifiers | modifier }),
        None => None,
    }
}

/// The keys that trigger one action.
#[derive(Debug)]
pub struct ActionKeybinds {
    pub bindings: Vec<TerminalKey>,
}

impl ActionKeybinds {
    /// An action without a key.
    pub fn unbound() -> (binds: ActionKeybinds)
        ensures
            binds.bindings@ == Seq::<TerminalKey>::empty(),
    {
        ActionKeybinds { bindings: Vec::new() }
    }

    /// An action bound to the chord that `text` spells, if it is safe to bind directly.
    pub fn direct(text: &str) -> (binds: ActionKeybinds)
        ensures
            binds.bindings@ == direct_bindings(text@),
    {
        let mut binds = ActionKeybinds::unbound();
        if let Some(key) = read_chord(&chars_of(text), 0) {
            if key.modifiers & (CONTROL | ALT) != 0 {
                binds.bindings.push(key);
            }
        }
        assert(binds.bindings@ =~= direct_bindings(text@));
        binds
    }

    /// Whether `key` triggers the action.
    pub fn matches_direct_key(&self, key: &TerminalKey) -> (matches: bool)
        ensures
            matches == self.bindings@.contains(*key),
    {
        let mut i: usize = 0;
        while i < self.bindings.len()
            invariant
                i <= self.bindings@.len(),
                forall|j: int| 0 <= j < i ==> self.bindings@[j] != *key,
            decreases self.bindings@.len() - i,
        {
            if self.bindings[i] == *key {
                return true;
            }
            i += 1;
        }
        false
    }
}

/// The keys of all actions.
#[derive(Debug)]
pub struct Keybinds {
    pub close_pane_if_idle: ActionKeybinds,
}

/// The settings that name keys.
#[derive(Debug)]
pub struct Config {
    /// The chord that closes an idle pane, where the user has chosen one.
    pub close_pane_if_idle: Option<String>,
}

impl Default for Config {
    fn default() -> (config: Config)
        ensures
            config.close_pane_if_idle is None,
    {
        Config { close_pane_if_idle: None }
    }
}

impl Config {
    /// The keys that close an idle pane: none unless the user has chosen a chord.
    pub open spec fn close_bindings(self) -> Seq<TerminalKey> {
        match self.close_pane_if_idle {
            Some(text) => direct_bindings(text@),
            None => Seq::empty(),
        }
    }

    pub fn keybinds(&self) -> (keybinds: Keybinds)
        ensures
            keybinds.close_pane_if_idle.bindings@ == self.close_bindings(),
    {
        match &self.close_pane_if_idle {
            Some(text) => Keybinds { close_pane_if_idle: ActionKeybinds::direct(text.as_str()) },
            None => Keybinds { close_pane_if_idle: ActionKeybinds::unbound() },
        }
    }
}

/// Whether `key` closes the focused pane: it is bound to that, there is a focused pane, no agent
/// lives in its terminal, and nothing but its shell runs there.
pub open spec fn closes_focused_pane(
    bindings: Seq<TerminalKey>,
    focused: Option<TerminalState>,
    at_bare_shell: bool,
    key: TerminalKey,
) -> bool {
    &&& bindings.contains(key)
    &&& focused matches Some(terminal) && !terminal.agent_present()
    &&& at_bare_shell
}

/// Decides what becomes of `key`: whether it is consumed and closes the focused pane, or goes on
/// to the program that owns the pane.
///
/// `focused` is the terminal of the focused pane, and `at_bare_shell` whether the foreground job
/// there is the pane's own shell.
pub fn close_focused_pane_if_idle_requested(
    keybinds: &Keybinds,
    focused: Option<&TerminalState>,
    at_bare_shell: bool,
    key: &TerminalKey,
) -> (consumed: bool)
    ensures
        consumed == closes_focused_pane(
            keybinds.close_pane_if_idle.bindings@,
            match focused {
                Some(terminal) => Some(*terminal),
                None => None,
            },
            at_bare_shell,
            *key,
        ),
        consumed ==> at_bare_shell && keybinds.close_pane_if_idle.bindings@.contains(*key),
        focused is None ==> !consumed,
        focused is Some && focused->0.agent_name is Some ==> !consumed,
        focused is Some && focused->0.agent_label is Some ==> !consumed,
{
    if !keybinds.close_pane_if_idle.matches_direct_key(key) {
        return false;
    }
    match focused {
        Some(terminal) => !terminal.hosts_agent() && at_bare_shell,
        None => false,
    }
}

/// A chord bound directly always carries control or alt, so it cannot swallow ordinary typing.
pub proof fn law_direct_bindings_carry_a_modifier(text: Seq<char>, key: TerminalKey)
    requires
        direct_bindings(text).contains(key),
    ensures
        is_command(key),
{
}

/// A character with alt alone is safe to bind, and binds just that key.
pub proof fn law_a_bare_alt_chord_binds(c: char)
    ensures
        direct_bindings(seq!['a', 'l', 't', '+', c]) == seq![
            TerminalKey { code: KeyCode::Char(c), modifiers: ALT },
        ],
{
    let text = seq!['a', 'l', 't', '+', c];
    assert(!stands_at(text, 0, seq!['c', 't', 'r', 'l', '+'])) by {
        assert(text.subrange(0, 5)[0] != seq!['c', 't', 'r', 'l', '+'][0]);
    }
    assert(text.subrange(0, 4) == seq!['a', 'l', 't', '+']);
    reveal_with_fuel(chord_from, 2);
    assert(0u8 | 4u8 == 4u8) by (bit_vector);
    assert(4u8 & (2u8 | 4u8) != 0) by (bit_vector);
}

/// Unless the user has chosen a chord, no key closes a pane.
pub proof fn law_closing_is_opt_in(
    config: Config,
    focused: Option<TerminalState>,
    at_bare_shell: bool,
    key: TerminalKey,
)
    requires
        config.close_pane_if_idle is None,
    ensures
        !closes_focused_pane(config.close_bindings(), focused, at_bare_shell, key),
{
}

/// A key that was not chosen closes nothing, however idle the pane is.
pub proof fn law_only_the_bound_chord_closes(
    bindings: Seq<TerminalKey>,
    focused: Option<TerminalState>,
    at_bare_shell: bool,
    key: TerminalKey,
)
    requires
        !bindings.contains(key),
    ensures
        !closes_focused_pane(bindings, focused, at_bare_shell, key),
{
}

/// While an agent or any other program owns a pane, or where no pane has the focus, the chord is
/// not consumed.
pub proof fn law_a_busy_pane_keeps_the_chord(
    bindings: Seq<TerminalKey>,
    focused: Option<TerminalState>,
    at_bare_shell: bool,
    key: TerminalKey,
)
    requires
        focused is None || focused->0.agent_present() || !at_bare_shell,
    ensures
        !closes_focused_pane(bindings, focused, at_bare_shell, key),
{
}

/// A pane that the agent panel lists is never closed by the chord.
pub proof fn law_a_listed_pane_keeps_the_chord(
    bindings: Seq<TerminalKey>,
    panes: Map<PaneId, PaneState>,
    terminals: Map<TerminalId, TerminalState>,
    tab_idx: int,
    id: PaneId,
    at_bare_shell: bool,
    key: TerminalKey,
)
    requires
        listed_pane(panes, terminals, tab_idx, id) is Some,
    ensures
        !closes_focused_pane(
            bindings,
            Some(terminals[panes[id].attached_terminal_id]),
            at_bare_shell,
            key,
        ),
{
}

/// Once a pane is back at its shell and no agent lives there, the bound chord closes it.
pub proof fn law_an_idle_pane_is_closed(
    bindings: Seq<TerminalKey>,
    terminal: TerminalState,
    key: TerminalKey,
)
    requires
        bindings.contains(key),
        !terminal.agent_present(),
    ensures
        closes_focused_pane(bindings, Some(terminal), true, key),
{
}

/// An agent that the user has named keeps the chord, whether or not it was recognized too, and one
/// that was recognized keeps it, whether or not it has a name.
pub proof fn law_any_agent_keeps_the_chord(
    bindings: Seq<TerminalKey>,
    terminal: TerminalState,
    at_bare_shell: bool,
    key: TerminalKey,
)
    ensures
        terminal.agent_name is Some ==> !closes_focused_pane(
            bindings,
            Some(terminal),
            at_bare_shell,
            key,
        ),
        terminal.agent_label is Some ==> !closes_focused_pane(
            bindings,
            Some(terminal),
            at_bare_shell,
            key,
        ),
{
}

/// A key closes the focused pane exactly if it is bound to that, there is such a pane, the user has
/// named no agent there and none was recognized, and its shell is all that runs. What the terminal
/// is otherwise like does not matter.
pub proof fn law_when_a_pane_is_closed(
    bindings: Seq<TerminalKey>,
    focused: Option<TerminalState>,
    at_bare_shell: bool,
    key: TerminalKey,
)
    ensures
        closes_focused_pane(bindings, focused, at_bare_shell, key) <==> bindings.contains(key)
            && at_bare_shell && focused is Some && focused->0.agent_name is None
            && focused->0.agent_label is None,
{
}

/// The chord that the user has chosen is the one that is bound.
pub proof fn law_the_chosen_chord_is_bound(config: Config)
    ensures
        config.close_pane_if_idle is Some ==> config.close_bindings() == direct_bindings(
            config.close_pane_if_idle->0@,
        ),
        config.close_pane_if_idle is None ==> config.close_bindings().len() == 0,
{
}

/// A text binds one key at most, and that has control or alt among its modifiers.
pub proof fn law_a_text_binds_one_command_at_most(text: Seq<char>, key: TerminalKey)
    ensures
        direct_bindings(text).len() <= 1,
        direct_bindings(text).contains(key) <==> chord_from(text, 0) == Some(key) && key.modifiers
            & 6u8 != 0,
{
    assert(2u8 | 4u8 == 6u8) by (bit_vector);
    if chord_from(text, 0) == Some(key) && is_command(key) {
        assert(direct_bindings(text)[0] == key);
    }
}

/// A single character spells itself without modifiers. Nothing is spelled by no text at all, nor by
/// a longer one that does not start with a modifier and a plus sign.
pub proof fn law_what_spells_a_chord(text: Seq<char>)
    ensures
        text.len() == 0 ==> chord_from(text, 0) is None,
        text.len() == 1 ==> chord_from(text, 0) == Some(
            TerminalKey { code: KeyCode::Char(text[0]), modifiers: 0 },
        ),
        text.len() > 1 && chord_from(text, 0) is Some ==> {
            ||| text.len() > 5 && text.take(5) == seq!['c', 't', 'r', 'l', '+']
            ||| text.len() > 4 && text.take(4) == seq!['a', 'l', 't', '+']
            ||| text.len() > 6 && text.take(6) == seq!['s', 'h', 'i', 'f', 't', '+']
        },
{
    if text.len() > 1 {
        reveal_with_fuel(chord_from, 2);
    }
}

/// A modifier and a plus sign before a chord add that modifier, and change nothing else.
pub proof fn law_modifiers_add_up(rest: Seq<char>)
    ensures
        ({
            let chord = chord_from(rest, 0);
            let control = chord_from(seq!['c', 't', 'r', 'l', '+'] + rest, 0);
            let alt = chord_from(seq!['a', 'l', 't', '+'] + rest, 0);
            let shift = chord_from(seq!['s', 'h', 'i', 'f', 't', '+'] + rest, 0);
            &&& chord is None ==> control is None && alt is None && shift is None
            &&& chord is Some ==> {
                let key = chord->0;
                &&& control == Some(TerminalKey { code: key.code, modifiers: key.modifiers | 2u8 })
                &&& alt == Some(TerminalKey { code: key.code, modifiers: key.modifiers | 4u8 })
                &&& shift == Some(TerminalKey { code: key.code, modifiers: key.modifiers | 1u8 })
            }
        }),
{
    let control = seq!['c', 't', 'r', 'l', '+'];
    let alt = seq!['a', 'l', 't', '+'];
    let shift = seq!['s', 'h', 'i', 'f', 't', '+'];
    lemma_chord_behind(control, rest, 0);
    lemma_chord_behind(alt, rest, 0);
    lemma_chord_behind(shift, rest, 0);
    assert((control + rest).subrange(0, 5) == control);
    assert((alt + rest).subrange(0, 4) == alt);
    assert((shift + rest).subrange(0, 6) == shift);
    assert(!stands_at(alt + rest, 0, control)) by {
        if (alt + rest).len() >= 5 {
            assert((alt + rest).subrange(0, 5)[0] == 'a' && control[0] == 'c');
        }
    }
    assert(!stands_at(shift + rest, 0, control)) by {
        assert((shift + rest).subrange(0, 5)[0] == 's' && control[0] == 'c');
    }
    assert(!stands_at(shift + rest, 0, alt)) by {
        assert((shift + rest).subrange(0, 4)[0] == 's' && alt[0] == 'a');
    }
}

/// What text spells does not depend on what stands before it.
proof fn lemma_chord_behind(front: Seq<char>, text: Seq<char>, at: int)
    requires
        0 <= at,
    ensures
        chord_from(front + text, front.len() + at) == chord_from(text, at),
    decreases text.len() + 6 - at,
{
    let all = front + text;
    let from = front.len() + at;
    if at < text.len() {
        assert(all[from] == text[at]);
        assert forall|word: Seq<char>| #[trigger] stands_at(all, from, word) == stands_at(
            text,
            at,
            word,
        ) by {
            if at + word.len() <= text.len() {
                assert(all.subrange(from, from + word.len()) =~= text.subrange(
                    at,
                    at + word.len(),
                ));
            }
        }
        lemma_chord_behind(front, text, at + 5);
        lemma_chord_behind(front, text, at + 4);
        lemma_chord_behind(front, text, at + 6);
    }
}

} // verus!
