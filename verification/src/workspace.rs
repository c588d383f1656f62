//! Tabs of panes, the panes listed for a workspace, and the one status that stands for all of them.

use std::collections::HashMap;
use vstd::prelude::*;

use crate::clock::{Clock, Instant, MAX_ELAPSED_NANOS};
use crate::pane::{PaneId, PaneState};
use crate::terminal::{AgentState, TerminalId, TerminalState};

verus! {

broadcast use vstd::std_specs::hash::group_hash_axioms;

/// Detail info for a single pane, as the agent panel lists it.
pub struct PaneDetail {
    pub pane_id: PaneId,
    /// Position of the pane's tab among the tabs of its workspace.
    pub tab_idx: usize,
    pub agent_kind_label: Option<String>,
    pub state: AgentState,
    pub seen: bool,
    /// The moment that the pane's staleness is measured from.
    pub aged_from: Instant,
    pub last_agent_state_change_seq: Option<u64>,
    pub tokens: HashMap<String, String>,
}

/// What a [`PaneDetail`] says.
pub struct PaneDetailView {
    pub pane_id: PaneId,
    pub tab_idx: int,
    pub agent_kind_label: Option<Seq<char>>,
    pub state: AgentState,
    pub seen: bool,
    pub aged_from: Instant,
    pub last_agent_state_change_seq: Option<u64>,
    pub tokens: Map<String, String>,
}

/// The characters of a label, where there is one.
pub open spec fn label_chars(label: Option<String>) -> Option<Seq<char>> {
    match label {
        Some(label) => Some(label@),
        None => None,
    }
}

impl View for PaneDetail {
    type V = PaneDetailView;

    open spec fn view(&self) -> PaneDetailView {
        PaneDetailView {
            pane_id: self.pane_id,
            tab_idx: self.tab_idx as int,
            agent_kind_label: label_chars(self.agent_kind_label),
            state: self.state,
            seen: self.seen,
            aged_from: self.aged_from,
            last_agent_state_change_seq: self.last_agent_state_change_seq,
            tokens: self.tokens@,
        }
    }
}

/// What the details in a sequence say.
pub open spec fn details_view(details: Seq<PaneDetail>) -> Seq<PaneDetailView> {
    Seq::new(details.len(), |i: int| details[i]@)
}

/// The moment that the staleness of `pane` is measured from: the last look at a pane that was
/// seen, else the moment its result appeared.
pub open spec fn aged_from(pane: PaneState, terminal: TerminalState) -> Instant {
    if pane.seen {
        pane.seen_at
    } else {
        terminal.state_entered_at
    }
}

/// Which clock a pane's staleness is measured from.
///
/// An unread result ages from when it appeared. Once the user has looked, it ages from that look
/// instead, so glancing at a pane keeps it fresh.
pub fn pane_aged_from(pane: &PaneState, terminal: &TerminalState) -> (from: Instant)
    ensures
        from == aged_from(*pane, *terminal),
{
    if pane.seen {
        pane.seen_at
    } else {
        terminal.state_entered_at()
    }
}

/// One tab of a workspace.
pub struct Tab {
    /// Public number of the tab, which stays with it when tabs before it close.
    pub number: usize,
    pub root_pane: PaneId,
    /// The tab's panes in layout order.
    pub layout: Vec<PaneId>,
    pub panes: HashMap<PaneId, PaneState>,
}

/// What is listed for the pane `id` of a tab: nothing where the pane or its terminal is not
/// there, or where no agent lives in that terminal.
pub open spec fn listed_pane(
    panes: Map<PaneId, PaneState>,
    terminals: Map<TerminalId, TerminalState>,
    tab_idx: int,
    id: PaneId,
) -> Option<PaneDetailView> {
    if panes.contains_key(id) && terminals.contains_key(panes[id].attached_terminal_id) {
        let pane = panes[id];
        let terminal = terminals[pane.attached_terminal_id];
        if terminal.agent_present() {
            Some(
                PaneDetailView {
                    pane_id: id,
                    tab_idx,
                    agent_kind_label: label_chars(terminal.agent_label),
                    state: terminal.state,
                    seen: pane.seen,
                    aged_from: aged_from(pane, terminal),
                    last_agent_state_change_seq: terminal.last_agent_state_change_seq,
                    tokens: terminal.metadata_tokens@,
                },
            )
        } else {
            None
        }
    } else {
        None
    }
}

/// What is listed for the panes `ids` of a tab, in that order.
pub open spec fn listed_panes(
    panes: Map<PaneId, PaneState>,
    terminals: Map<TerminalId, TerminalState>,
    tab_idx: int,
    ids: Seq<PaneId>,
) -> Seq<PaneDetailView>
    decreases ids.len(),
{
    if ids.len() == 0 {
        Seq::empty()
    } else {
        let before = listed_panes(panes, terminals, tab_idx, ids.drop_last());
        match listed_pane(panes, terminals, tab_idx, ids.last()) {
            Some(detail) => before.push(detail),
            None => before,
        }
    }
}

impl Tab {
    /// What is listed for this tab, at position `tab_idx`.
    pub open spec fn listed(
        self,
        terminals: Map<TerminalId, TerminalState>,
        tab_idx: int,
    ) -> Seq<PaneDetailView> {
        listed_panes(self.panes@, terminals, tab_idx, self.layout@)
    }

    /// The panes of this tab in whose terminals an agent lives, in layout order.
    pub fn pane_details(
        &self,
        terminals: &HashMap<TerminalId, TerminalState>,
        tab_idx: usize,
    ) -> (details: Vec<PaneDetail>)
        ensures
            details_view(details@) == self.listed(terminals@, tab_idx as int),
    {
        let mut details: Vec<PaneDetail> = Vec::new();
        let mut next: usize = 0;
        while next < self.layout.len()
            invariant
                next <= self.layout@.len(),
                details_view(details@) == listed_panes(
                    self.panes@,
                    terminals@,
                    tab_idx as int,
                    self.layout@.take(next as int),
                ),
            decreases self.layout@.len() - next,
        {
            let id = self.layout[next];
            proof {
                let upto = self.layout@.take(next + 1);
                assert(upto.drop_last() == self.layout@.take(next as int));
                assert(upto.last() == id);
            }
            let ghost before = details@;
            if let Some(pane) = self.panes.get(&id) {
                if let Some(terminal) = terminals.get(&pane.attached_terminal_id) {
                    if terminal.hosts_agent() {
                        let agent_kind_label = match terminal.effective_agent_label() {
                            Some(label) => Some(label.clone()),
                            None => None,
                        };
                        details.push(
                            PaneDetail {
                                pane_id: id,
                                tab_idx,
                                agent_kind_label,
                                state: terminal.state,
                                seen: pane.seen,
                                aged_from: pane_aged_from(pane, terminal),
                                last_agent_state_change_seq: terminal.last_agent_state_change_seq,
                                tokens: terminal.metadata_tokens.clone(),
                            },
                        );
                        assert(details_view(details@) == details_view(before).push(
                            details@.last()@,
                        ));
                    }
                }
            }
            next += 1;
        }
        assert(self.layout@.take(next as int) == self.layout@);
        details
    }
}

/// A workspace or tab's headline status, plus the moment to age it from.
#[derive(Debug, Clone, Copy, PartialEq, Eq, Structural)]
pub struct AggregateStatus {
    pub state: AgentState,
    pub seen: bool,
    pub aged_from: Instant,
}

impl AggregateStatus {
    /// How urgently this status asks for the user's attention.
    pub open spec fn priority(self) -> int {
        attention_priority(self.state, self.seen)
    }
}

/// How urgently an agent asks for attention: a blocked one most, then a finished one whose result
/// is unread, then one at work, then an idle one, and one that is not known least.
pub open spec fn attention_priority(state: AgentState, seen: bool) -> int {
    match state {
        AgentState::Blocked => 4,
        AgentState::Idle => if seen {
            1
        } else {
            3
        },
        AgentState::Working => 2,
        AgentState::Unknown => 0,
    }
}

pub fn pane_attention_priority(state: AgentState, seen: bool) -> (priority: u8)
    ensures
        priority == attention_priority(state, seen),
{
    match (state, seen) {
        (AgentState::Blocked, _) => 4,
        (AgentState::Idle, false) => 3,
        (AgentState::Working, _) => 2,
        (AgentState::Idle, true) => 1,
        (AgentState::Unknown, _) => 0,
    }
}

/// Whether `statuses[i]` asks most for attention, and is the last one that asks as much.
pub open spec fn is_last_most_urgent(statuses: Seq<AggregateStatus>, i: int) -> bool {
    &&& 0 <= i < statuses.len()
    &&& forall|j: int|
        0 <= j < statuses.len() ==> (#[trigger] statuses[j]).priority() <= statuses[i].priority()
    &&& forall|j: int|
        i < j < statuses.len() ==> (#[trigger] statuses[j]).priority() < statuses[i].priority()
}

/// The status that asks most for attention, the last of them where several ask as much. Nothing
/// where there are no statuses.
pub fn most_urgent(statuses: &Vec<AggregateStatus>) -> (urgent: Option<AggregateStatus>)
    ensures
        match urgent {
            Some(status) => exists|i: int| #[trigger]
                is_last_most_urgent(statuses@, i) && statuses@[i] == status,
            None => statuses@.len() == 0,
        },
{
    if statuses.len() == 0 {
        return None;
    }
    let mut best: usize = 0;
    let mut next: usize = 1;
    while next < statuses.len()
        invariant
            best < next <= statuses@.len(),
            is_last_most_urgent(statuses@.take(next as int), best as int),
        decreases statuses@.len() - next,
    {
        let ghost seen = statuses@.take(next as int);
        let ghost more = statuses@.take(next + 1);
        assert(forall|j: int| 0 <= j < next ==> more[j] == seen[j]);
        if pane_attention_priority(statuses[next].state, statuses[next].seen)
            >= pane_attention_priority(statuses[best].state, statuses[best].seen) {
            best = next;
        }
        next += 1;
    }
    assert(statuses@.take(next as int) == statuses@);
    Some(statuses[best])
}

/// The status that a pane contributes.
pub open spec fn status_of(pane: PaneState, terminal: TerminalState) -> AggregateStatus {
    AggregateStatus {
        state: terminal.state,
        seen: pane.seen,
        aged_from: aged_from(pane, terminal),
    }
}

impl Tab {
    /// The status that the pane `id` of this tab contributes: nothing where there is no such
    /// pane, or where its terminal is not there.
    pub open spec fn contributed(
        self,
        terminals: Map<TerminalId, TerminalState>,
        id: PaneId,
    ) -> Option<AggregateStatus> {
        if self.panes@.contains_key(id) && terminals.contains_key(
            self.panes@[id].attached_terminal_id,
        ) {
            Some(status_of(self.panes@[id], terminals[self.panes@[id].attached_terminal_id]))
        } else {
            None
        }
    }

    /// Whether some pane of this tab contributes `status`.
    pub open spec fn is_contributed(
        self,
        terminals: Map<TerminalId, TerminalState>,
        status: AggregateStatus,
    ) -> bool {
        exists|id: PaneId| #[trigger] self.contributed(terminals, id) == Some(status)
    }

    /// Whether `statuses` holds what the panes of this tab contribute, each once. `ids` says from
    /// which pane each of them comes.
    pub open spec fn collected_from(
        self,
        terminals: Map<TerminalId, TerminalState>,
        ids: Seq<PaneId>,
        statuses: Seq<AggregateStatus>,
    ) -> bool {
        &&& ids.len() == statuses.len()
        &&& ids.no_duplicates()
        &&& forall|i: int|
            0 <= i < ids.len() ==> self.contributed(terminals, #[trigger] ids[i]) == Some(
                statuses[i],
            )
        &&& forall|id: PaneId|
            (#[trigger] self.contributed(terminals, id)) is Some ==> ids.contains(id)
    }

    /// What the panes of this tab contribute, in no particular order.
    pub fn pane_statuses(&self, terminals: &HashMap<TerminalId, TerminalState>) -> (statuses: Vec<
        AggregateStatus,
    >)
        ensures
            exists|ids: Seq<PaneId>| self.collected_from(terminals@, ids, statuses@),
    {
        let mut statuses: Vec<AggregateStatus> = Vec::new();
        let ghost mut ids: Seq<PaneId> = Seq::empty();
        for (id, pane) in walk: self.panes.iter()
            invariant
                walk.seq().no_duplicates(),
                forall|k: int|
                    0 <= k < walk.seq().len() ==> self.panes@.contains_key(
                        *(#[trigger] walk.seq()[k]).0,
                    ) && self.panes@[*walk.seq()[k].0] == *walk.seq()[k].1,
                forall|id: PaneId| #[trigger]
                    self.panes@.contains_key(id) ==> walk.seq().contains((&id, &self.panes@[id])),
                ids.len() == statuses@.len(),
                ids.no_duplicates(),
                forall|i: int|
                    0 <= i < ids.len() ==> self.contributed(terminals@, #[trigger] ids[i]) == Some(
                        statuses@[i],
                    ),
                forall|k: int|
                    walk.index() <= k < walk.seq().len() ==> !ids.contains(
                        *(#[trigger] walk.seq()[k]).0,
                    ),
                forall|k: int|
                    0 <= k < walk.index() && self.contributed(
                        terminals@,
                        *(#[trigger] walk.seq()[k]).0,
                    ) is Some ==> ids.contains(*walk.seq()[k].0),
        {
            assert(walk.seq()[walk.index()] == (id, pane));
            let ghost before = ids;
            if let Some(terminal) = terminals.get(&pane.attached_terminal_id) {
                statuses.push(
                    AggregateStatus {
                        state: terminal.state,
                        seen: pane.seen,
                        aged_from: pane_aged_from(pane, terminal),
                    },
                );
                proof {
                    ids = ids.push(*id);
                    assert(ids.last() == *id);
                    assert forall|other: PaneId| before.contains(other) implies #[trigger]
                        ids.contains(other) by {
                        assert(ids[before.index_of(other)] == other);
                    }
                    assert forall|k: int| walk.index() < k < walk.seq().len() implies !ids.contains(
                        *(#[trigger] walk.seq()[k]).0,
                    ) by {
                        assert(walk.seq()[k] != walk.seq()[walk.index()]);
                    }
                }
            }
        }
        assert(self.collected_from(terminals@, ids, statuses@));
        statuses
    }
}

/// The tabs of one workspace.
pub struct Workspace {
    pub tabs: Vec<Tab>,
}

/// The status that the pane `id` of the tab at `tab_idx` contributes, where there is such a tab.
pub open spec fn contributed(
    tabs: Seq<Tab>,
    terminals: Map<TerminalId, TerminalState>,
    tab_idx: int,
    id: PaneId,
) -> Option<AggregateStatus> {
    if 0 <= tab_idx < tabs.len() {
        tabs[tab_idx].contributed(terminals, id)
    } else {
        None
    }
}

/// Whether `statuses` holds what the panes of `tabs` contribute, each once, tab after tab.
/// `sources` says from which tab and pane each of them comes.
pub open spec fn collected_from(
    tabs: Seq<Tab>,
    terminals: Map<TerminalId, TerminalState>,
    sources: Seq<(int, PaneId)>,
    statuses: Seq<AggregateStatus>,
) -> bool {
    &&& sources.len() == statuses.len()
    &&& sources.no_duplicates()
    &&& forall|i: int, j: int| 0 <= i <= j < sources.len() ==> sources[i].0 <= sources[j].0
    &&& forall|i: int|
        0 <= i < sources.len() ==> contributed(
            tabs,
            terminals,
            (#[trigger] sources[i]).0,
            sources[i].1,
        ) == Some(statuses[i])
    &&& forall|t: int, id: PaneId|
        (#[trigger] contributed(tabs, terminals, t, id)) is Some ==> sources.contains((t, id))
}

/// Whether `statuses` holds what the panes of `tabs` contribute, each once, those of earlier tabs
/// first.
pub open spec fn collects(
    statuses: Seq<AggregateStatus>,
    tabs: Seq<Tab>,
    terminals: Map<TerminalId, TerminalState>,
) -> bool {
    exists|sources: Seq<(int, PaneId)>| collected_from(tabs, terminals, sources, statuses)
}

/// Statuses collected of some tabs, and then those of the next tab, are together those of both.
proof fn lemma_collects_another_tab(
    tabs: Seq<Tab>,
    terminals: Map<TerminalId, TerminalState>,
    sources: Seq<(int, PaneId)>,
    before: Seq<AggregateStatus>,
    ids: Seq<PaneId>,
    added: Seq<AggregateStatus>,
    t: int,
) -> (all_sources: Seq<(int, PaneId)>)
    requires
        0 <= t < tabs.len(),
        collected_from(tabs.take(t), terminals, sources, before),
        tabs[t].collected_from(terminals, ids, added),
    ensures
        collected_from(tabs.take(t + 1), terminals, all_sources, before + added),
{
    let all = before + added;
    let more = Seq::new(ids.len(), |i: int| (t, ids[i]));
    let all_sources = sources + more;
    let earlier = tabs.take(t);
    let upto = tabs.take(t + 1);
    assert forall|i: int| 0 <= i < sources.len() implies 0 <= (#[trigger] sources[i]).0 < t by {
        assert(contributed(earlier, terminals, sources[i].0, sources[i].1) is Some);
    }
    assert forall|i: int| 0 <= i < all_sources.len() implies contributed(
        upto,
        terminals,
        (#[trigger] all_sources[i]).0,
        all_sources[i].1,
    ) == Some(all[i]) by {
        if i < sources.len() {
            assert(all_sources[i] == sources[i]);
            assert(upto[sources[i].0] == earlier[sources[i].0]);
        } else {
            assert(all_sources[i] == (t, ids[i - sources.len()]));
        }
    }
    assert forall|i: int, j: int| 0 <= i <= j < all_sources.len() implies all_sources[i].0
        <= all_sources[j].0 by {
        if i < sources.len() {
            assert(all_sources[i] == sources[i]);
        }
    }
    assert forall|i: int, j: int| 0 <= i < j < all_sources.len() implies all_sources[i]
        != all_sources[j] by {
        if i < sources.len() {
            assert(all_sources[i] == sources[i]);
        } else {
            assert(ids[i - sources.len()] != ids[j - sources.len()]);
        }
    }
    assert forall|u: int, id: PaneId|
        (#[trigger] contributed(upto, terminals, u, id)) is Some implies all_sources.contains(
        (u, id),
    ) by {
        if u < t {
            assert(contributed(earlier, terminals, u, id) is Some);
            assert(all_sources[sources.index_of((u, id))] == (u, id));
        } else {
            assert(tabs[t].contributed(terminals, id) is Some);
            assert(all_sources[sources.len() + ids.index_of(id)] == (u, id));
        }
    }
    all_sources
}

/// There is something to collect exactly where some pane contributes.
proof fn lemma_contributions_are_collected(
    statuses: Seq<AggregateStatus>,
    tabs: Seq<Tab>,
    terminals: Map<TerminalId, TerminalState>,
)
    requires
        collects(statuses, tabs, terminals),
    ensures
        statuses.len() > 0 <==> exists|t: int, id: PaneId|
            (#[trigger] contributed(tabs, terminals, t, id)) is Some,
{
    let sources = choose|sources: Seq<(int, PaneId)>|
        collected_from(tabs, terminals, sources, statuses);
    if statuses.len() > 0 {
        assert(contributed(tabs, terminals, sources[0].0, sources[0].1) is Some);
    }
}

/// Whether the tab at `tab_idx` contributes `status`, no pane asks more for attention, and none of
/// a later tab asks as much.
pub open spec fn leads(
    tabs: Seq<Tab>,
    terminals: Map<TerminalId, TerminalState>,
    tab_idx: int,
    status: AggregateStatus,
) -> bool {
    &&& 0 <= tab_idx < tabs.len()
    &&& tabs[tab_idx].is_contributed(terminals, status)
    &&& forall|u: int, id: PaneId|
        (#[trigger] contributed(tabs, terminals, u, id)) matches Some(other) ==> {
            &&& other.priority() <= status.priority()
            &&& u > tab_idx ==> other.priority() < status.priority()
        }
}

/// The last of the most urgent of the statuses collected leads.
proof fn lemma_last_most_urgent_leads(
    statuses: Seq<AggregateStatus>,
    tabs: Seq<Tab>,
    terminals: Map<TerminalId, TerminalState>,
    i: int,
) -> (tab_idx: int)
    requires
        collects(statuses, tabs, terminals),
        is_last_most_urgent(statuses, i),
    ensures
        leads(tabs, terminals, tab_idx, statuses[i]),
{
    let sources = choose|sources: Seq<(int, PaneId)>|
        collected_from(tabs, terminals, sources, statuses);
    let (t, id) = sources[i];
    assert(tabs[t].contributed(terminals, id) == Some(statuses[i]));
    assert forall|u: int, jd: PaneId|
        (#[trigger] contributed(tabs, terminals, u, jd)) matches Some(other) implies ({
        let other = contributed(tabs, terminals, u, jd)->0;
        &&& other.priority() <= statuses[i].priority()
        &&& u > t ==> other.priority() < statuses[i].priority()
    }) by {
        let j = sources.index_of((u, jd));
        assert(sources[j] == (u, jd));
        assert(contributed(tabs, terminals, u, jd) == Some(statuses[j]));
        if u > t && j <= i {
            assert(sources[j].0 <= sources[i].0);
        }
    }
    t
}

/// What is listed for `tabs`, tab after tab.
pub open spec fn listed_tabs(
    tabs: Seq<Tab>,
    terminals: Map<TerminalId, TerminalState>,
) -> Seq<PaneDetailView>
    decreases tabs.len(),
{
    if tabs.len() == 0 {
        Seq::empty()
    } else {
        listed_tabs(tabs.drop_last(), terminals) + tabs.last().listed(terminals, tabs.len() - 1)
    }
}

impl Workspace {
    /// Whether some pane of this workspace contributes a status.
    pub open spec fn contributes(self, terminals: Map<TerminalId, TerminalState>) -> bool {
        exists|t: int, id: PaneId|
            (#[trigger] contributed(self.tabs@, terminals, t, id)) is Some
    }

    /// Whether `status` may stand for this workspace at `now`: it leads the panes, those of later
    /// tabs before those of earlier ones that ask as much for attention. Panes of one tab that ask
    /// as much are told apart by the order in which a hash map is walked, so any of them may.
    /// Without a contribution, it is an unknown agent with nothing unread.
    pub open spec fn stood_for_by(
        self,
        terminals: Map<TerminalId, TerminalState>,
        now: Instant,
        status: AggregateStatus,
    ) -> bool {
        if self.contributes(terminals) {
            exists|t: int| leads(self.tabs@, terminals, t, status)
        } else {
            status == AggregateStatus { state: AgentState::Unknown, seen: true, aged_from: now }
        }
    }

    /// What the panes of this workspace contribute, those of earlier tabs first, and in no
    /// particular order within a tab.
    pub fn pane_statuses(&self, terminals: &HashMap<TerminalId, TerminalState>) -> (statuses: Vec<
        AggregateStatus,
    >)
        ensures
            collects(statuses@, self.tabs@, terminals@),
    {
        let mut statuses: Vec<AggregateStatus> = Vec::new();
        let ghost mut sources: Seq<(int, PaneId)> = Seq::empty();
        let mut t: usize = 0;
        while t < self.tabs.len()
            invariant
                t <= self.tabs@.len(),
                collected_from(self.tabs@.take(t as int), terminals@, sources, statuses@),
            decreases self.tabs@.len() - t,
        {
            let mut more = self.tabs[t].pane_statuses(terminals);
            let ghost before = statuses@;
            let ghost added = more@;
            statuses.append(&mut more);
            proof {
                let ids = choose|ids: Seq<PaneId>|
                    self.tabs@[t as int].collected_from(terminals@, ids, added);
                sources = lemma_collects_another_tab(
                    self.tabs@,
                    terminals@,
                    sources,
                    before,
                    ids,
                    added,
                    t as int,
                );
            }
            t += 1;
        }
        assert(self.tabs@.take(t as int) == self.tabs@);
        assert(collected_from(self.tabs@, terminals@, sources, statuses@));
        statuses
    }

    /// The status that stands for this workspace now, as `clock` reads it.
    pub fn aggregate_state(
        &self,
        terminals: &HashMap<TerminalId, TerminalState>,
        clock: &Clock,
    ) -> (status: AggregateStatus)
        ensures
            exists|now: Instant|
                now.nanos <= MAX_ELAPSED_NANOS && #[trigger] self.stood_for_by(
                    terminals@,
                    now,
                    status,
                ),
    {
        self.aggregate_state_at(terminals, clock.now())
    }

    /// The status that stands for this workspace at `now`.
    pub fn aggregate_state_at(
        &self,
        terminals: &HashMap<TerminalId, TerminalState>,
        now: Instant,
    ) -> (status: AggregateStatus)
        ensures
            self.stood_for_by(terminals@, now, status),
    {
        let statuses = self.pane_statuses(terminals);
        let urgent = most_urgent(&statuses);
        proof {
            lemma_contributions_are_collected(statuses@, self.tabs@, terminals@);
            if let Some(status) = urgent {
                let i = choose|i: int| #[trigger]
                    is_last_most_urgent(statuses@, i) && statuses@[i] == status;
                let t = lemma_last_most_urgent_leads(statuses@, self.tabs@, terminals@, i);
                assert(leads(self.tabs@, terminals@, t, status));
            }
        }
        urgent.unwrap_or(
            AggregateStatus { state: AgentState::Unknown, seen: true, aged_from: now },
        )
    }

    /// The panes in whose terminals an agent lives, tab after tab.
    pub fn pane_details(&self, terminals: &HashMap<TerminalId, TerminalState>) -> (details: Vec<
        PaneDetail,
    >)
        ensures
            details_view(details@) == listed_tabs(self.tabs@, terminals@),
    {
        let mut details: Vec<PaneDetail> = Vec::new();
        let mut t: usize = 0;
        while t < self.tabs.len()
            invariant
                t <= self.tabs@.len(),
                details_view(details@) == listed_tabs(self.tabs@.take(t as int), terminals@),
            decreases self.tabs@.len() - t,
        {
            let mut more = self.tabs[t].pane_details(terminals, t);
            let ghost before = details@;
            let ghost added = more@;
            details.append(&mut more);
            proof {
                let upto = self.tabs@.take(t + 1);
                assert(upto.drop_last() == self.tabs@.take(t as int));
                assert(upto.last() == self.tabs@[t as int]);
                assert(details_view(before + added) == details_view(before) + details_view(added));
            }
            t += 1;
        }
        assert(self.tabs@.take(t as int) == self.tabs@);
        details
    }
}

/// Looking at a pane never makes it ask more for attention.
pub proof fn law_looking_never_raises_attention(state: AgentState)
    ensures
        attention_priority(state, true) <= attention_priority(state, false),
{
}

/// A blocked agent asks more for attention than any that is not, and an unread result more than
/// an agent at work.
pub proof fn law_attention_order(state: AgentState, seen: bool)
    ensures
        state != AgentState::Blocked ==> attention_priority(state, seen) < attention_priority(
            AgentState::Blocked,
            seen,
        ),
        attention_priority(AgentState::Working, seen) < attention_priority(AgentState::Idle, false),
        attention_priority(AgentState::Idle, true) < attention_priority(AgentState::Working, seen),
        state != AgentState::Unknown ==> attention_priority(AgentState::Unknown, seen)
            < attention_priority(state, seen),
{
}

/// The order in which panes are walked may decide which moment a headline ages from, but never
/// the state it shows, nor whether an idle one is unread.
pub proof fn law_headline_state_is_settled(
    workspace: Workspace,
    terminals: Map<TerminalId, TerminalState>,
    now: Instant,
    one: AggregateStatus,
    other: AggregateStatus,
)
    requires
        workspace.stood_for_by(terminals, now, one),
        workspace.stood_for_by(terminals, now, other),
    ensures
        one.state == other.state,
        one.state == AgentState::Idle ==> one.seen == other.seen,
{
    if workspace.contributes(terminals) {
        let tabs = workspace.tabs@;
        let t = choose|t: int| leads(tabs, terminals, t, one);
        let u = choose|u: int| leads(tabs, terminals, u, other);
        let id = choose|id: PaneId| #[trigger] tabs[t].contributed(terminals, id) == Some(one);
        let jd = choose|jd: PaneId| #[trigger] tabs[u].contributed(terminals, jd) == Some(other);
        assert(contributed(tabs, terminals, t, id) == Some(one));
        assert(contributed(tabs, terminals, u, jd) == Some(other));
    }
}

/// Between tabs a tie goes to the last: the headline comes from the last tab in which a pane asks
/// as much for attention as the headline does.
pub proof fn law_ties_go_to_the_last_tab(
    workspace: Workspace,
    terminals: Map<TerminalId, TerminalState>,
    now: Instant,
    status: AggregateStatus,
    tab_idx: int,
    id: PaneId,
)
    requires
        workspace.stood_for_by(terminals, now, status),
        contributed(workspace.tabs@, terminals, tab_idx, id) matches Some(own) && own.priority()
            == status.priority(),
        forall|u: int, jd: PaneId|
            u > tab_idx && (#[trigger] contributed(workspace.tabs@, terminals, u, jd)) is Some
                ==> contributed(workspace.tabs@, terminals, u, jd)->0.priority()
                != status.priority(),
    ensures
        workspace.tabs@[tab_idx].is_contributed(terminals, status),
{
    let tabs = workspace.tabs@;
    let t = choose|t: int| leads(tabs, terminals, t, status);
    let jd = choose|jd: PaneId| #[trigger] tabs[t].contributed(terminals, jd) == Some(status);
    assert(contributed(tabs, terminals, t, jd) == Some(status));
    assert(t == tab_idx);
}

/// Listing panes one by one.
proof fn lemma_listed_panes_member(
    panes: Map<PaneId, PaneState>,
    terminals: Map<TerminalId, TerminalState>,
    tab_idx: int,
    ids: Seq<PaneId>,
    detail: PaneDetailView,
)
    ensures
        listed_panes(panes, terminals, tab_idx, ids).contains(detail) <==> ids.contains(
            detail.pane_id,
        ) && listed_pane(panes, terminals, tab_idx, detail.pane_id) == Some(detail),
    decreases ids.len(),
{
    if ids.len() > 0 {
        let before = ids.drop_last();
        let shown = listed_panes(panes, terminals, tab_idx, before);
        lemma_listed_panes_member(panes, terminals, tab_idx, before, detail);
        assert(ids == before.push(ids.last()));
        broadcast use vstd::seq_lib::group_seq_properties;
    }
}

/// A detail is listed for a workspace exactly where its tab index is the position of a tab whose
/// layout holds its pane, and it says what is known of that pane, in whose terminal an agent lives.
pub proof fn law_details_are_the_agent_panes(
    tabs: Seq<Tab>,
    terminals: Map<TerminalId, TerminalState>,
    detail: PaneDetailView,
)
    ensures
        listed_tabs(tabs, terminals).contains(detail) <==> {
            &&& 0 <= detail.tab_idx < tabs.len()
            &&& tabs[detail.tab_idx].layout@.contains(detail.pane_id)
            &&& listed_pane(
                tabs[detail.tab_idx].panes@,
                terminals,
                detail.tab_idx,
                detail.pane_id,
            ) == Some(detail)
        },
    decreases tabs.len(),
{
    if tabs.len() > 0 {
        let before = tabs.drop_last();
        let last = tabs.len() - 1;
        law_details_are_the_agent_panes(before, terminals, detail);
        lemma_listed_panes_member(
            tabs[last].panes@,
            terminals,
            last,
            tabs[last].layout@,
            detail,
        );
        broadcast use vstd::seq_lib::group_seq_properties;
    }
}

/// Details come in the order of their tabs.
pub proof fn law_details_follow_the_tabs(
    tabs: Seq<Tab>,
    terminals: Map<TerminalId, TerminalState>,
    i: int,
    j: int,
)
    requires
        0 <= i <= j < listed_tabs(tabs, terminals).len(),
    ensures
        listed_tabs(tabs, terminals)[i].tab_idx <= listed_tabs(tabs, terminals)[j].tab_idx,
    decreases tabs.len(),
{
    let last = tabs.len() - 1;
    let before = listed_tabs(tabs.drop_last(), terminals);
    let all = listed_tabs(tabs, terminals);
    if j < before.len() {
        law_details_follow_the_tabs(tabs.drop_last(), terminals, i, j);
    } else {
        let own = tabs.last().listed(terminals, last);
        assert(own[j - before.len()] == all[j]);
        assert(own.contains(all[j]));
        lemma_listed_panes_member(
            tabs.last().panes@,
            terminals,
            last,
            tabs.last().layout@,
            all[j],
        );
        assert(all.contains(all[i]));
        law_details_are_the_agent_panes(tabs, terminals, all[i]);
    }
}

/// No listed pane asks more for attention than the headline of its workspace.
pub proof fn law_headline_covers_the_details(
    workspace: Workspace,
    terminals: Map<TerminalId, TerminalState>,
    now: Instant,
    status: AggregateStatus,
    detail: PaneDetailView,
)
    requires
        workspace.stood_for_by(terminals, now, status),
        listed_tabs(workspace.tabs@, terminals).contains(detail),
    ensures
        attention_priority(detail.state, detail.seen) <= status.priority(),
{
    law_details_are_the_agent_panes(workspace.tabs@, terminals, detail);
    let contribution = contributed(workspace.tabs@, terminals, detail.tab_idx, detail.pane_id);
    assert(contribution is Some);
}

/// Staleness is measured from the last look where there was one since the result, and else from the
/// result, whichever of the two moments is the later.
pub proof fn law_a_pane_ages_from_its_look_or_its_result(pane: PaneState, terminal: TerminalState)
    ensures
        pane.seen ==> aged_from(pane, terminal) == pane.seen_at,
        !pane.seen ==> aged_from(pane, terminal) == terminal.state_entered_at,
{
}

/// How the states rank: blocked, then idle and unread, then at work, then idle and seen, then not
/// known. Whether a pane was seen matters for an idle one only.
pub proof fn law_ranks_of_attention(state: AgentState, seen: bool)
    ensures
        state == AgentState::Blocked ==> attention_priority(state, seen) == 4,
        state == AgentState::Idle && !seen ==> attention_priority(state, seen) == 3,
        state == AgentState::Working ==> attention_priority(state, seen) == 2,
        state == AgentState::Idle && seen ==> attention_priority(state, seen) == 1,
        state == AgentState::Unknown ==> attention_priority(state, seen) == 0,
{
}

/// A headline is that of one pane: its state is the state of that pane's terminal, it is unread
/// exactly if the pane is, and it ages from the last look at the pane if it was seen, else from when
/// the terminal entered its state. No pane of a later tab is in the same state and, where that is
/// idle, as unread.
pub proof fn law_a_headline_is_that_of_a_pane(
    workspace: Workspace,
    terminals: Map<TerminalId, TerminalState>,
    now: Instant,
    status: AggregateStatus,
    tab_idx: int,
    id: PaneId,
) -> (source: (int, PaneId))
    requires
        workspace.stood_for_by(terminals, now, status),
        0 <= tab_idx < workspace.tabs@.len(),
        workspace.tabs@[tab_idx].panes@.contains_key(id),
        terminals.contains_key(workspace.tabs@[tab_idx].panes@[id].attached_terminal_id),
    ensures
        0 <= source.0 < workspace.tabs@.len(),
        workspace.tabs@[source.0].panes@.contains_key(source.1),
        ({
            let pane = workspace.tabs@[source.0].panes@[source.1];
            let terminal = terminals[pane.attached_terminal_id];
            &&& terminals.contains_key(pane.attached_terminal_id)
            &&& status.state == terminal.state
            &&& status.seen == pane.seen
            &&& pane.seen ==> status.aged_from == pane.seen_at
            &&& !pane.seen ==> status.aged_from == terminal.state_entered_at
        }),
        forall|u: int, jd: PaneId|
            #![trigger workspace.tabs@[u].panes@[jd]]
            source.0 < u < workspace.tabs@.len() && workspace.tabs@[u].panes@.contains_key(jd)
                && terminals.contains_key(workspace.tabs@[u].panes@[jd].attached_terminal_id) ==> {
                let other = workspace.tabs@[u].panes@[jd];
                let state = terminals[other.attached_terminal_id].state;
                state != status.state || state == AgentState::Idle && other.seen != status.seen
            },
{
    let tabs = workspace.tabs@;
    assert(contributed(tabs, terminals, tab_idx, id) is Some);
    let t = choose|t: int| leads(tabs, terminals, t, status);
    let source = choose|id: PaneId| #[trigger] tabs[t].contributed(terminals, id) == Some(status);
    assert forall|u: int, jd: PaneId|
        #![trigger workspace.tabs@[u].panes@[jd]]
        t < u < workspace.tabs@.len() && workspace.tabs@[u].panes@.contains_key(jd)
            && terminals.contains_key(workspace.tabs@[u].panes@[jd].attached_terminal_id) implies ({
        let other = workspace.tabs@[u].panes@[jd];
        let state = terminals[other.attached_terminal_id].state;
        state != status.state || state == AgentState::Idle && other.seen != status.seen
    }) by {
        assert(contributed(tabs, terminals, u, jd) is Some);
    }
    (t, source)
}

/// What asks most for attention makes the headline, in whichever tab it is: a blocked agent before
/// all, then an unread result, then an agent at work, then an idle one that was seen.
pub proof fn law_the_most_urgent_makes_the_headline(
    workspace: Workspace,
    terminals: Map<TerminalId, TerminalState>,
    now: Instant,
    status: AggregateStatus,
    tab_idx: int,
    id: PaneId,
)
    requires
        workspace.stood_for_by(terminals, now, status),
        0 <= tab_idx < workspace.tabs@.len(),
        workspace.tabs@[tab_idx].panes@.contains_key(id),
        terminals.contains_key(workspace.tabs@[tab_idx].panes@[id].attached_terminal_id),
    ensures
        ({
            let pane = workspace.tabs@[tab_idx].panes@[id];
            let state = terminals[pane.attached_terminal_id].state;
            let blocked = status.state == AgentState::Blocked;
            let unread = status.state == AgentState::Idle && !status.seen;
            let working = status.state == AgentState::Working;
            &&& state == AgentState::Blocked ==> blocked
            &&& state == AgentState::Idle && !pane.seen ==> blocked || unread
            &&& state == AgentState::Working ==> blocked || unread || working
            &&& state == AgentState::Idle && pane.seen ==> status.state != AgentState::Unknown
        }),
{
    assert(contributed(workspace.tabs@, terminals, tab_idx, id) is Some);
    let t = choose|t: int| leads(workspace.tabs@, terminals, t, status);
    assert(leads(workspace.tabs@, terminals, t, status));
}

/// Where no pane has its terminal, the headline is an agent that is not known, with nothing unread,
/// as of now.
pub proof fn law_without_terminals_nothing_is_known(
    workspace: Workspace,
    terminals: Map<TerminalId, TerminalState>,
    now: Instant,
    status: AggregateStatus,
)
    requires
        workspace.stood_for_by(terminals, now, status),
        forall|t: int, id: PaneId|
            #![trigger workspace.tabs@[t].panes@[id]]
            0 <= t < workspace.tabs@.len() && workspace.tabs@[t].panes@.contains_key(id)
                ==> !terminals.contains_key(workspace.tabs@[t].panes@[id].attached_terminal_id),
    ensures
        status.state == AgentState::Unknown,
        status.seen,
        status.aged_from == now,
{
    assert forall|t: int, id: PaneId|
        (#[trigger] contributed(workspace.tabs@, terminals, t, id)) is None by {
        if 0 <= t < workspace.tabs@.len() && workspace.tabs@[t].panes@.contains_key(id) {
            assert(!terminals.contains_key(
                workspace.tabs@[t].panes@[id].attached_terminal_id,
            ));
        }
    }
}

/// After a look at every pane, whatever headline comes next is seen and ages from that look.
pub proof fn law_a_look_all_round_settles_the_headline(
    workspace: Workspace,
    terminals: Map<TerminalId, TerminalState>,
    now: Instant,
    look: Instant,
    status: AggregateStatus,
    tab_idx: int,
    id: PaneId,
)
    requires
        workspace.stood_for_by(terminals, now, status),
        forall|t: int, id: PaneId|
            #![trigger workspace.tabs@[t].panes@[id]]
            0 <= t < workspace.tabs@.len() && workspace.tabs@[t].panes@.contains_key(id)
                ==> workspace.tabs@[t].panes@[id].seen && workspace.tabs@[t].panes@[id].seen_at
                == look,
        0 <= tab_idx < workspace.tabs@.len(),
        workspace.tabs@[tab_idx].panes@.contains_key(id),
        terminals.contains_key(workspace.tabs@[tab_idx].panes@[id].attached_terminal_id),
    ensures
        status.seen,
        status.aged_from == look,
{
    let source = law_a_headline_is_that_of_a_pane(workspace, terminals, now, status, tab_idx, id);
    assert(workspace.tabs@[source.0].panes@[source.1].seen);
}

/// The statuses of a tab are those of its panes that have their terminal, one for each, with the
/// terminal's state, whether the pane was seen, and the moment of the look or of the result.
pub proof fn law_statuses_of_a_tab(
    tab: Tab,
    terminals: Map<TerminalId, TerminalState>,
    ids: Seq<PaneId>,
    statuses: Seq<AggregateStatus>,
    id: PaneId,
    i: int,
)
    requires
        tab.collected_from(terminals, ids, statuses),
    ensures
        ids.len() == statuses.len(),
        ids.no_duplicates(),
        ids.contains(id) <==> tab.panes@.contains_key(id) && terminals.contains_key(
            tab.panes@[id].attached_terminal_id,
        ),
        0 <= i < statuses.len() ==> {
            let pane = tab.panes@[ids[i]];
            let terminal = terminals[pane.attached_terminal_id];
            &&& statuses[i].state == terminal.state
            &&& statuses[i].seen == pane.seen
            &&& pane.seen ==> statuses[i].aged_from == pane.seen_at
            &&& !pane.seen ==> statuses[i].aged_from == terminal.state_entered_at
        },
{
    if ids.contains(id) {
        assert(tab.contributed(terminals, ids[ids.index_of(id)]) is Some);
    }
    if tab.panes@.contains_key(id) && terminals.contains_key(tab.panes@[id].attached_terminal_id) {
        assert(tab.contributed(terminals, id) is Some);
    }
    if 0 <= i < statuses.len() {
        assert(tab.contributed(terminals, ids[i]) == Some(statuses[i]));
    }
}

/// The statuses of a workspace are those of its panes that have their terminal, one for each, tab
/// after tab.
pub proof fn law_statuses_of_a_workspace(
    tabs: Seq<Tab>,
    terminals: Map<TerminalId, TerminalState>,
    sources: Seq<(int, PaneId)>,
    statuses: Seq<AggregateStatus>,
    tab_idx: int,
    id: PaneId,
    i: int,
)
    requires
        collected_from(tabs, terminals, sources, statuses),
    ensures
        sources.len() == statuses.len(),
        sources.no_duplicates(),
        sources.contains((tab_idx, id)) <==> 0 <= tab_idx < tabs.len()
            && tabs[tab_idx].panes@.contains_key(id) && terminals.contains_key(
            tabs[tab_idx].panes@[id].attached_terminal_id,
        ),
        0 <= i < statuses.len() ==> {
            let pane = tabs[sources[i].0].panes@[sources[i].1];
            let terminal = terminals[pane.attached_terminal_id];
            &&& statuses[i].state == terminal.state
            &&& statuses[i].seen == pane.seen
            &&& pane.seen ==> statuses[i].aged_from == pane.seen_at
            &&& !pane.seen ==> statuses[i].aged_from == terminal.state_entered_at
        },
        0 < i < statuses.len() ==> sources[i - 1].0 <= sources[i].0,
{
    if sources.contains((tab_idx, id)) {
        let at = sources.index_of((tab_idx, id));
        assert(sources[at] == (tab_idx, id));
    }
    if 0 <= tab_idx < tabs.len() && tabs[tab_idx].panes@.contains_key(id)
        && terminals.contains_key(tabs[tab_idx].panes@[id].attached_terminal_id) {
        assert(contributed(tabs, terminals, tab_idx, id) is Some);
    }
    if 0 <= i < statuses.len() {
        assert(contributed(tabs, terminals, sources[i].0, sources[i].1) == Some(statuses[i]));
    }
}

/// Of several statuses the one chosen is blocked if any is, else unread if any is, else at work if
/// any is, else idle if any is. None behind it is in the same state and, where that is idle, as
/// unread.
pub proof fn law_the_last_most_urgent_is_chosen(statuses: Seq<AggregateStatus>, i: int, j: int)
    requires
        is_last_most_urgent(statuses, i),
        0 <= j < statuses.len(),
    ensures
        0 <= i < statuses.len(),
        ({
            let chosen = statuses[i];
            let other = statuses[j];
            let blocked = chosen.state == AgentState::Blocked;
            let unread = chosen.state == AgentState::Idle && !chosen.seen;
            let working = chosen.state == AgentState::Working;
            &&& other.state == AgentState::Blocked ==> blocked
            &&& other.state == AgentState::Idle && !other.seen ==> blocked || unread
            &&& other.state == AgentState::Working ==> blocked || unread || working
            &&& other.state == AgentState::Idle && other.seen ==> chosen.state
                != AgentState::Unknown
            &&& j > i ==> other.state != chosen.state || other.state == AgentState::Idle
                && other.seen != chosen.seen
        }),
{
    assert(statuses[j].priority() <= statuses[i].priority());
}

/// A detail says what it holds.
pub proof fn law_a_detail_says_what_it_holds(details: Seq<PaneDetail>, i: int)
    requires
        0 <= i < details.len(),
    ensures
        details_view(details).len() == details.len(),
        details_view(details)[i].pane_id == details[i].pane_id,
        details_view(details)[i].tab_idx == details[i].tab_idx,
        details_view(details)[i].state == details[i].state,
        details_view(details)[i].seen == details[i].seen,
        details_view(details)[i].aged_from == details[i].aged_from,
        details_view(details)[i].last_agent_state_change_seq
            == details[i].last_agent_state_change_seq,
        details_view(details)[i].tokens == details[i].tokens@,
        details[i].agent_kind_label is None <==> details_view(details)[i].agent_kind_label is None,
        details[i].agent_kind_label is Some ==> details_view(details)[i].agent_kind_label == Some(
            details[i].agent_kind_label->0@,
        ),
{
}

/// A pane of a tab's layout is listed exactly if the user has named an agent in its terminal or one
/// was recognized there, whatever that agent is doing and whether or not the pane was seen.
pub proof fn law_every_agent_is_listed(
    tabs: Seq<Tab>,
    terminals: Map<TerminalId, TerminalState>,
    tab_idx: int,
    id: PaneId,
)
    requires
        0 <= tab_idx < tabs.len(),
        tabs[tab_idx].layout@.contains(id),
        tabs[tab_idx].panes@.contains_key(id),
        terminals.contains_key(tabs[tab_idx].panes@[id].attached_terminal_id),
    ensures
        ({
            let pane = tabs[tab_idx].panes@[id];
            let terminal = terminals[pane.attached_terminal_id];
            terminal.agent_name is Some || terminal.agent_label is Some <==> exists|i: int|
                0 <= i < listed_tabs(tabs, terminals).len() && (#[trigger] listed_tabs(
                    tabs,
                    terminals,
                )[i]).tab_idx == tab_idx && listed_tabs(tabs, terminals)[i].pane_id == id
        }),
{
    let all = listed_tabs(tabs, terminals);
    match listed_pane(tabs[tab_idx].panes@, terminals, tab_idx, id) {
        Some(detail) => {
            law_details_are_the_agent_panes(tabs, terminals, detail);
            assert(all[all.index_of(detail)] == detail);
        },
        None => {
            assert forall|i: int| 0 <= i < all.len() implies !((#[trigger] all[i]).tab_idx
                == tab_idx && all[i].pane_id == id) by {
                assert(all.contains(all[i]));
                law_details_are_the_agent_panes(tabs, terminals, all[i]);
            }
        },
    }
}

/// Each detail listed is that of a pane in the layout of the tab it names, in whose terminal an
/// agent was named or recognized, and says what the pane and the terminal hold.
pub proof fn law_details_tell_what_is_known(
    tabs: Seq<Tab>,
    terminals: Map<TerminalId, TerminalState>,
    i: int,
)
    requires
        0 <= i < listed_tabs(tabs, terminals).len(),
    ensures
        ({
            let detail = listed_tabs(tabs, terminals)[i];
            let tab = tabs[detail.tab_idx];
            let pane = tab.panes@[detail.pane_id];
            let terminal = terminals[pane.attached_terminal_id];
            &&& 0 <= detail.tab_idx < tabs.len()
            &&& tab.layout@.contains(detail.pane_id)
            &&& tab.panes@.contains_key(detail.pane_id)
            &&& terminals.contains_key(pane.attached_terminal_id)
            &&& terminal.agent_name is Some || terminal.agent_label is Some
            &&& detail.state == terminal.state
            &&& detail.seen == pane.seen
            &&& pane.seen ==> detail.aged_from == pane.seen_at
            &&& !pane.seen ==> detail.aged_from == terminal.state_entered_at
            &&& detail.last_agent_state_change_seq == terminal.last_agent_state_change_seq
            &&& detail.tokens == terminal.metadata_tokens@
            &&& terminal.agent_label is None ==> detail.agent_kind_label is None
            &&& terminal.agent_label is Some ==> detail.agent_kind_label == Some(
                terminal.agent_label->0@,
            )
        }),
{
    let all = listed_tabs(tabs, terminals);
    assert(all.contains(all[i]));
    law_details_are_the_agent_panes(tabs, terminals, all[i]);
}

/// Where the layout of a tab is one layout after another, what is listed for it is what is listed
/// for the one and then for the other.
pub proof fn law_layouts_are_listed_in_order(
    whole: Tab,
    first: Tab,
    second: Tab,
    terminals: Map<TerminalId, TerminalState>,
    tab_idx: int,
)
    requires
        first.panes@ == whole.panes@,
        second.panes@ == whole.panes@,
        whole.layout@ == first.layout@ + second.layout@,
    ensures
        whole.listed(terminals, tab_idx) == first.listed(terminals, tab_idx) + second.listed(
            terminals,
            tab_idx,
        ),
{
    lemma_listed_panes_append(
        whole.panes@,
        terminals,
        tab_idx,
        first.layout@,
        second.layout@,
    );
}

/// Panes are listed one after another.
proof fn lemma_listed_panes_append(
    panes: Map<PaneId, PaneState>,
    terminals: Map<TerminalId, TerminalState>,
    tab_idx: int,
    first: Seq<PaneId>,
    second: Seq<PaneId>,
)
    ensures
        listed_panes(panes, terminals, tab_idx, first + second) == listed_panes(
            panes,
            terminals,
            tab_idx,
            first,
        ) + listed_panes(panes, terminals, tab_idx, second),
    decreases second.len(),
{
    if second.len() == 0 {
        assert(first + second == first);
    } else {
        lemma_listed_panes_append(panes, terminals, tab_idx, first, second.drop_last());
        assert((first + second).drop_last() == first + second.drop_last());
    }
}

/// A tab of one pane lists it once where an agent was named or recognized in its terminal, and
/// lists nothing where there is no agent, no terminal or no pane.
pub proof fn law_a_single_pane_is_listed_once(
    tab: Tab,
    terminals: Map<TerminalId, TerminalState>,
    tab_idx: int,
    id: PaneId,
)
    requires
        tab.layout@ == seq![id],
    ensures
        ({
            let listed = tab.listed(terminals, tab_idx);
            let pane = tab.panes@[id];
            let terminal = terminals[pane.attached_terminal_id];
            let there = tab.panes@.contains_key(id) && terminals.contains_key(
                pane.attached_terminal_id,
            ) && (terminal.agent_name is Some || terminal.agent_label is Some);
            &&& there ==> listed.len() == 1 && listed[0].pane_id == id && listed[0].tab_idx
                == tab_idx && listed[0].state == terminal.state && listed[0].seen == pane.seen
            &&& !there ==> listed.len() == 0
        }),
{
    reveal_with_fuel(listed_panes, 2);
    assert(tab.layout@.drop_last() == Seq::<PaneId>::empty());
}

/// One more tab at the end adds what is listed for it, and changes nothing before.
pub proof fn law_tabs_are_listed_in_order(
    tabs: Seq<Tab>,
    tab: Tab,
    terminals: Map<TerminalId, TerminalState>,
)
    ensures
        listed_tabs(Seq::empty(), terminals).len() == 0,
        listed_tabs(tabs.push(tab), terminals) == listed_tabs(tabs, terminals) + tab.listed(
            terminals,
            tabs.len() as int,
        ),
{
    assert(tabs.push(tab).drop_last() == tabs);
}

} // verus!
