//! The viewport state of a pane.

use vstd::prelude::*;

use crate::clock::{Clock, Instant, MAX_ELAPSED_NANOS};
use crate::terminal::TerminalId;

verus! {

pub type PaneId = u32;

/// Viewport state for a pane.
///
/// Identity, labels and agent metadata live in the terminal it is attached to.
#[derive(Debug)]
pub struct PaneState {
    pub attached_terminal_id: TerminalId,
    /// Whether the user has seen this pane since its agent last became idle.
    pub seen: bool,
    /// When the user last looked at this pane. Every look counts, also at a pane already seen.
    pub seen_at: Instant,
    /// Whether the alert for an unread result has fired in this idle episode.
    pub stale_notified: bool,
    /// Whether unmodified right clicks go to the program in the pane.
    pub right_click_passthrough: bool,
}

impl PaneState {
    /// The state of a pane opened at `now`.
    pub open spec fn opened(attached_terminal_id: TerminalId, now: Instant) -> PaneState {
        PaneState {
            attached_terminal_id,
            seen: true,
            seen_at: now,
            stale_notified: false,
            right_click_passthrough: false,
        }
    }

    /// The state of this pane once the user has looked at it at `now`.
    pub open spec fn looked_at(self, now: Instant) -> PaneState {
        PaneState { seen: true, seen_at: now, stale_notified: false, ..self }
    }

    /// A pane opened at the moment that `clock` reads.
    pub fn new(attached_terminal_id: TerminalId, clock: &Clock) -> (pane: PaneState)
        ensures
            pane == PaneState::opened(attached_terminal_id, pane.seen_at),
            pane.attached_terminal_id == attached_terminal_id,
            pane.seen,
            !pane.stale_notified,
            !pane.right_click_passthrough,
            pane.seen_at.nanos <= MAX_ELAPSED_NANOS,
    {
        PaneState::new_at(attached_terminal_id, clock.now())
    }

    /// A pane opened at `now`.
    pub fn new_at(attached_terminal_id: TerminalId, now: Instant) -> (pane: PaneState)
        ensures
            pane == PaneState::opened(attached_terminal_id, now),
            pane.attached_terminal_id == attached_terminal_id,
            pane.seen_at == now,
    {
        PaneState {
            attached_terminal_id,
            seen: true,
            seen_at: now,
            stale_notified: false,
            right_click_passthrough: false,
        }
    }

    /// Records that the user looked at this pane.
    ///
    /// Returns whether this flipped an unseen pane to seen. The look clock advances either way,
    /// and the unread alert is armed again: a second look is a fresh look.
    pub fn mark_seen(&mut self, now: Instant) -> (was_unseen: bool)
        ensures
            was_unseen == !old(self).seen,
            *final(self) == old(self).looked_at(now),
            final(self).seen,
            final(self).seen_at == now,
            !final(self).stale_notified,
    {
        let was_unseen = !self.seen;
        self.seen = true;
        self.seen_at = now;
        self.stale_notified = false;
        was_unseen
    }
}

/// Only the last of several looks counts, and none but the first can flip a pane to seen.
pub proof fn law_last_look_counts(pane: PaneState, first: Instant, last: Instant)
    ensures
        pane.looked_at(first).looked_at(last) == pane.looked_at(last),
        pane.looked_at(first).seen,
{
}

/// A pane opens seen, as of the moment it opens, on its own terminal, with no alert fired and
/// right clicks kept.
pub proof fn law_a_pane_opens_seen(attached_terminal_id: TerminalId, now: Instant)
    ensures
        ({
            let pane = PaneState::opened(attached_terminal_id, now);
            &&& pane.attached_terminal_id == attached_terminal_id
            &&& pane.seen
            &&& pane.seen_at == now
            &&& !pane.stale_notified
            &&& !pane.right_click_passthrough
        }),
{
}

/// Whatever a pane was like, after a look it is seen as of that look and its alert is armed again.
/// Its terminal and where its right clicks go stay as they were.
pub proof fn law_a_look_is_recorded(pane: PaneState, now: Instant)
    ensures
        pane.looked_at(now).seen,
        pane.looked_at(now).seen_at == now,
        !pane.looked_at(now).stale_notified,
        pane.looked_at(now).attached_terminal_id == pane.attached_terminal_id,
        pane.looked_at(now).right_click_passthrough == pane.right_click_passthrough,
{
}

} // verus!
