//! The interactive session: search state, freeze state machine, staged
//! signal workflow, and the command handler that ties the pipeline together.
//!
//! Every command from the presentation layer is a [`Message`]; [`App::update`]
//! consumes one message, mutates the session state, and hands back an
//! [`Effect`] for the caller to perform (scrolling, focusing the search box,
//! or dispatching a staged signal to the filtered pids).  The whole transition
//! is pinned down by the spec-level [`step`] function over [`AppModel`].

use vstd::prelude::*;

use crate::process_data::query_matches_row;
use crate::process_data::parse_query;
use crate::process_data::KillaData;
use crate::process_data::SnapshotModel;
use crate::row::ColumnKind;
use crate::row::MemHarvest;
use crate::row::Row;
use crate::sort::sort_by_column_spec;
use crate::sort::ProcessListSort;
use crate::sort::SortOrder;

verus! {

/// The signals the session can stage for dispatch.
#[derive(Clone, Copy, Debug, PartialEq, Eq, Structural)]
pub enum SignalKind {
    /// Polite termination request.
    Term,
    /// Forced kill.
    Kill,
}

/// Edits of the search box.
#[derive(Debug)]
pub enum TextInputAction {
    Append(String),
    PopLastChar,
    Replace(String),
    Toggle,
    Hide,
}

/// The mathematical shape of a search-box edit.
pub enum TextModel {
    Append(Seq<char>),
    PopLastChar,
    Replace(Seq<char>),
    Toggle,
    Hide,
}

impl View for TextInputAction {
    type V = TextModel;

    open spec fn view(&self) -> TextModel {
        match self {
            TextInputAction::Append(s) => TextModel::Append(s@),
            TextInputAction::PopLastChar => TextModel::PopLastChar,
            TextInputAction::Replace(s) => TextModel::Replace(s@),
            TextInputAction::Toggle => TextModel::Toggle,
            TextInputAction::Hide => TextModel::Hide,
        }
    }
}

/// Messages that update the session.
#[derive(Debug)]
pub enum Message {
    /// A fresh snapshot arrived from the collector bridge.
    CollectedData(KillaData),
    ToggleFreeze,
    Freeze(bool),
    SetSortField(ColumnKind),
    Search(TextInputAction),
    StageSignalAllFiltered(SignalKind),
    /// Escape key or back button pressed.
    Back,
    /// Enter pressed.
    Enter,
}

/// The mathematical shape of a message.
pub enum MessageModel {
    CollectedData(SnapshotModel),
    ToggleFreeze,
    SetFreeze(bool),
    SetSortField(ColumnKind),
    SearchInput(TextModel),
    Stage(SignalKind),
    Back,
    Enter,
}

impl View for Message {
    type V = MessageModel;

    open spec fn view(&self) -> MessageModel {
        match self {
            Message::CollectedData(d) => MessageModel::CollectedData(d@),
            Message::ToggleFreeze => MessageModel::ToggleFreeze,
            Message::Freeze(b) => MessageModel::SetFreeze(*b),
            Message::SetSortField(c) => MessageModel::SetSortField(*c),
            Message::Search(t) => MessageModel::SearchInput(t@),
            Message::StageSignalAllFiltered(s) => MessageModel::Stage(*s),
            Message::Back => MessageModel::Back,
            Message::Enter => MessageModel::Enter,
        }
    }
}

/// The freeze state: either updates flow through, or the view is pinned and
/// the latest snapshot waits in the pending slot.
#[derive(Debug)]
pub enum Freeze {
    Disabled,
    /// Holds the latest collected snapshot, if any arrived while frozen.
    Enabled(Option<KillaData>),
}

/// The mathematical shape of the freeze state.
pub enum FreezeModel {
    Disabled,
    Enabled(Option<SnapshotModel>),
}

impl View for Freeze {
    type V = FreezeModel;

    open spec fn view(&self) -> FreezeModel {
        match self {
            Freeze::Disabled => FreezeModel::Disabled,
            Freeze::Enabled(p) => FreezeModel::Enabled(
                match p {
                    Some(d) => Some(d@),
                    None => None,
                },
            ),
        }
    }
}

/// The search box: whether it is shown (only then does it narrow the rows)
/// and its text.
#[derive(Debug)]
pub struct Search {
    pub visible: bool,
    pub text: String,
}

/// What the caller must perform after an update.
#[derive(Debug)]
pub enum Effect {
    NoOp,
    ScrollToTop,
    ScrollToTopAndFocus,
    ScrollToTopFocusAndSelectAll,
    /// Deliver the signal to each pid, in display order.
    Dispatch { signal: SignalKind, pids: Vec<i32> },
}

/// The mathematical shape of an effect.
pub enum EffectModel {
    NoOp,
    ScrollToTop,
    ScrollToTopAndFocus,
    ScrollToTopFocusAndSelectAll,
    Dispatch { signal: SignalKind, pids: Seq<i32> },
}

impl View for Effect {
    type V = EffectModel;

    open spec fn view(&self) -> EffectModel {
        match self {
            Effect::NoOp => EffectModel::NoOp,
            Effect::ScrollToTop => EffectModel::ScrollToTop,
            Effect::ScrollToTopAndFocus => EffectModel::ScrollToTopAndFocus,
            Effect::ScrollToTopFocusAndSelectAll => EffectModel::ScrollToTopFocusAndSelectAll,
            Effect::Dispatch { signal, pids } => EffectModel::Dispatch {
                signal: *signal,
                pids: pids@,
            },
        }
    }
}

/// The session state.
#[derive(Debug)]
pub struct App {
    /// The visible rows: the live data, sorted, then filtered.
    pub rows: Vec<Row>,
    pub search: Search,
    pub sort: ProcessListSort,
    /// The live working copy of the latest accepted snapshot.
    pub last_data: KillaData,
    pub freeze: Freeze,
    /// A signal awaiting explicit confirmation, if any.
    pub staged_sig_all_filtered: Option<SignalKind>,
    /// Minimum search-phrase length required before a signal may be staged:
    /// the safety rail against signalling a near-empty filter.
    pub min_stage_search_len: usize,
}

/// The mathematical shape of the session state.
pub struct AppModel {
    pub rows: Seq<Row>,
    pub search_visible: bool,
    pub search_text: Seq<char>,
    pub sort_column: ColumnKind,
    pub sort_order: SortOrder,
    pub data_rows: Seq<Row>,
    pub data_memory: MemHarvest,
    pub freeze: FreezeModel,
    pub staged: Option<SignalKind>,
    pub min_stage_len: usize,
}

impl View for App {
    type V = AppModel;

    open spec fn view(&self) -> AppModel {
        AppModel {
            rows: self.rows@,
            search_visible: self.search.visible,
            search_text: self.search.text@,
            sort_column: self.sort.column,
            sort_order: self.sort.order,
            data_rows: self.last_data.rows@,
            data_memory: self.last_data.memory,
            freeze: self.freeze@,
            staged: self.staged_sig_all_filtered,
            min_stage_len: self.min_stage_search_len,
        }
    }
}

/// What filtering leaves visible: when the search box is shown, the rows
/// matching its parsed query; otherwise the rows as they are.
pub open spec fn filtered_rows(data_rows: Seq<Row>, visible: bool, text: Seq<char>) -> Seq<
    Row,
> {
    if visible {
        data_rows.filter(|row: Row| query_matches_row(parse_query(text), row))
    } else {
        data_rows
    }
}

/// Re-sort the live data by the active sort.
pub open spec fn sort_model(m: AppModel) -> AppModel {
    AppModel { data_rows: sort_by_column_spec(m.data_rows, m.sort_column, m.sort_order), ..m }
}

/// Recompute the visible rows from the live data.
pub open spec fn filter_model(m: AppModel) -> AppModel {
    AppModel { rows: filtered_rows(m.data_rows, m.search_visible, m.search_text), ..m }
}

/// The freeze transitions: enabling pins the view with an empty pending slot;
/// disabling commits the pending snapshot (if any) into the live data;
/// enabling while enabled and disabling while disabled do nothing.
pub open spec fn set_freeze_model(m: AppModel, enable: bool) -> AppModel {
    match m.freeze {
        FreezeModel::Disabled => {
            if enable {
                AppModel { freeze: FreezeModel::Enabled(None), ..m }
            } else {
                m
            }
        },
        FreezeModel::Enabled(pending) => {
            if enable {
                m
            } else {
                match pending {
                    Some(snap) => AppModel {
                        freeze: FreezeModel::Disabled,
                        data_rows: snap.rows,
                        data_memory: snap.memory,
                        ..m
                    },
                    None => AppModel { freeze: FreezeModel::Disabled, ..m },
                }
            }
        },
    }
}

/// One search-box edit: the text change, an unfreeze, and the re-filter, with
/// the scrolling the presentation layer owes the user.
pub open spec fn handle_search_model(m: AppModel, t: TextModel) -> (AppModel, EffectModel) {
    match t {
        TextModel::Append(s) => {
            let edited = if m.search_visible {
                AppModel { search_text: m.search_text + s, ..m }
            } else {
                AppModel { search_visible: true, search_text: s, ..m }
            };
            (filter_model(set_freeze_model(edited, false)), EffectModel::ScrollToTopAndFocus)
        },
        TextModel::Replace(s) => {
            let edited = AppModel { search_visible: true, search_text: s, ..m };
            (filter_model(set_freeze_model(edited, false)), EffectModel::ScrollToTopAndFocus)
        },
        TextModel::PopLastChar => {
            if m.search_visible {
                let shorter = if m.search_text.len() > 0 {
                    m.search_text.drop_last()
                } else {
                    m.search_text
                };
                let edited = AppModel { search_text: shorter, ..m };
                (
                    filter_model(set_freeze_model(edited, false)),
                    EffectModel::ScrollToTopAndFocus,
                )
            } else {
                (m, EffectModel::NoOp)
            }
        },
        TextModel::Toggle => {
            let unfrozen = set_freeze_model(m, false);
            if m.search_visible {
                (
                    filter_model(AppModel { search_visible: false, ..unfrozen }),
                    EffectModel::ScrollToTopAndFocus,
                )
            } else {
                (
                    filter_model(AppModel { search_visible: true, ..unfrozen }),
                    EffectModel::ScrollToTopFocusAndSelectAll,
                )
            }
        },
        TextModel::Hide => {
            let hidden = set_freeze_model(AppModel { search_visible: false, ..m }, false);
            (filter_model(sort_model(hidden)), EffectModel::ScrollToTop)
        },
    }
}

/// One step of the session: the state after a message and the effect owed to
/// the caller.
pub open spec fn step(m: AppModel, msg: MessageModel) -> (AppModel, EffectModel) {
    match msg {
        MessageModel::SearchInput(t) => handle_search_model(
            AppModel { staged: None, ..m },
            t,
        ),
        MessageModel::CollectedData(snap) => match m.freeze {
            FreezeModel::Enabled(_) => (
                AppModel { freeze: FreezeModel::Enabled(Some(snap)), ..m },
                EffectModel::NoOp,
            ),
            FreezeModel::Disabled => (
                filter_model(
                    sort_model(
                        AppModel { data_rows: snap.rows, data_memory: snap.memory, ..m },
                    ),
                ),
                EffectModel::NoOp,
            ),
        },
        MessageModel::SetFreeze(enable) => {
            let cleared = AppModel { staged: None, ..m };
            (
                set_freeze_model(
                    filter_model(sort_model(set_freeze_model(cleared, false))),
                    enable,
                ),
                EffectModel::NoOp,
            )
        },
        MessageModel::ToggleFreeze => {
            let cleared = AppModel { staged: None, ..m };
            match m.freeze {
                FreezeModel::Enabled(_) => (
                    filter_model(sort_model(set_freeze_model(cleared, false))),
                    EffectModel::NoOp,
                ),
                FreezeModel::Disabled => (set_freeze_model(cleared, true), EffectModel::NoOp),
            }
        },
        MessageModel::SetSortField(col) => {
            let cleared = AppModel { staged: None, sort_column: col, ..m };
            (filter_model(sort_model(cleared)), EffectModel::NoOp)
        },
        MessageModel::Back => {
            let cleared = AppModel { staged: None, ..m };
            match m.freeze {
                FreezeModel::Enabled(_) => (
                    filter_model(sort_model(set_freeze_model(cleared, false))),
                    EffectModel::NoOp,
                ),
                FreezeModel::Disabled => handle_search_model(cleared, TextModel::Hide),
            }
        },
        MessageModel::Enter => match m.staged {
            Some(sig) => {
                let pids = m.rows.map_values(|r: Row| r.pid);
                let cleared = AppModel { staged: None, ..m };
                let refreshed = set_freeze_model(
                    filter_model(sort_model(set_freeze_model(cleared, false))),
                    true,
                );
                (refreshed, EffectModel::Dispatch { signal: sig, pids })
            },
            None => (m, EffectModel::NoOp),
        },
        MessageModel::Stage(sig) => {
            if m.freeze is Enabled && m.search_text.len() >= m.min_stage_len {
                (AppModel { staged: Some(sig), ..m }, EffectModel::NoOp)
            } else {
                (m, EffectModel::NoOp)
            }
        },
    }
}

impl Default for App {
    /// A fresh session: nothing collected yet, search hidden and empty,
    /// sorting by CPU descending, not frozen, nothing staged, and a staging
    /// guard of four characters.
    fn default() -> (r: Self)
        ensures
            r@.rows.len() == 0,
            r@.search_visible == false,
            r@.search_text.len() == 0,
            r@.sort_column == ColumnKind::Cpu,
            r@.sort_order == SortOrder::Descending,
            r@.data_rows.len() == 0,
            r@.data_memory == (MemHarvest { used_bytes: 0, total_bytes: 0 }),
            r@.freeze == FreezeModel::Disabled,
            r@.staged is None,
            r@.min_stage_len == 4,
    {
        App {
            rows: Vec::new(),
            search: Search { visible: false, text: String::new() },
            sort: ProcessListSort { column: ColumnKind::Cpu, order: SortOrder::Descending },
            last_data: KillaData::default(),
            freeze: Freeze::Disabled,
            staged_sig_all_filtered: None,
            min_stage_search_len: 4,
        }
    }
}

/// The pids of the rows, in display order.
fn collect_pids(rows: &Vec<Row>) -> (pids: Vec<i32>)
    ensures
        pids@ == rows@.map_values(|r: Row| r.pid),
{
    let mut pids: Vec<i32> = Vec::new();
    let mut i: usize = 0;
    while i < rows.len()
        invariant
            i <= rows@.len(),
            pids@.len() == i,
            forall|j: int| 0 <= j < i ==> pids@[j] == (#[trigger] rows@[j]).pid,
        decreases rows@.len() - i,
    {
        pids.push(rows[i].pid);
        i += 1;
    }
    proof {
        assert(pids@ =~= rows@.map_values(|r: Row| r.pid));
    }
    pids
}

impl App {
    /// Re-sort the live data by the active sort.
    fn sort_rows(&mut self)
        ensures
            final(self)@ == sort_model(old(self)@),
    {
        self.last_data.sort_by_column(self.sort.column, self.sort.order);
    }

    /// Recompute the visible rows from the live data: sorted order, narrowed
    /// by the search only while the search box is shown.
    fn filter_rows(&mut self)
        ensures
            final(self)@ == filter_model(old(self)@),
    {
        let data = self.last_data.clone();
        let data = if self.search.visible {
            data.search(self.search.text.as_str())
        } else {
            data
        };
        self.rows = data.into_rows();
    }

    /// Apply one freeze transition (see [`set_freeze_model`]).
    fn set_freeze(&mut self, enable: bool)
        ensures
            final(self)@ == set_freeze_model(old(self)@, enable),
    {
        if enable {
            if matches!(self.freeze, Freeze::Disabled) {
                self.freeze = Freeze::Enabled(None);
            }
        } else {
            match &self.freeze {
                Freeze::Disabled => {},
                Freeze::Enabled(pending) => {
                    match pending {
                        Some(data) => {
                            let committed = data.clone();
                            self.last_data = committed;
                        },
                        None => {},
                    }
                    self.freeze = Freeze::Disabled;
                },
            }
        }
    }

    /// Apply one search-box edit (see [`handle_search_model`]).
    fn handle_search(&mut self, ev: TextInputAction) -> (eff: Effect)
        ensures
            final(self)@ == handle_search_model(old(self)@, ev@).0,
            eff@ == handle_search_model(old(self)@, ev@).1,
    {
        match ev {
            TextInputAction::Append(s) => {
                if self.search.visible {
                    self.search.text.append(s.as_str());
                } else {
                    self.search.visible = true;
                    self.search.text = s;
                }
                self.set_freeze(false);
                self.filter_rows();
                Effect::ScrollToTopAndFocus
            },
            TextInputAction::Replace(s) => {
                self.search.visible = true;
                self.search.text = s;
                self.set_freeze(false);
                self.filter_rows();
                Effect::ScrollToTopAndFocus
            },
            TextInputAction::PopLastChar => {
                if self.search.visible {
                    let len = self.search.text.as_str().unicode_len();
                    if len > 0 {
                        let shorter = self.search.text.as_str().substring_char(
                            0,
                            len - 1,
                        ).to_owned();
                        proof {
                            assert(old(self)@.search_text.subrange(0, len - 1) =~= old(
                                self,
                            )@.search_text.drop_last());
                        }
                        self.search.text = shorter;
                    }
                    self.set_freeze(false);
                    self.filter_rows();
                    Effect::ScrollToTopAndFocus
                } else {
                    Effect::NoOp
                }
            },
            TextInputAction::Toggle => {
                self.set_freeze(false);
                if self.search.visible {
                    self.search.visible = false;
                    self.filter_rows();
                    Effect::ScrollToTopAndFocus
                } else {
                    self.search.visible = true;
                    self.filter_rows();
                    Effect::ScrollToTopFocusAndSelectAll
                }
            },
            TextInputAction::Hide => {
                self.search.visible = false;
                self.set_freeze(false);
                self.sort_rows();
                self.filter_rows();
                Effect::ScrollToTop
            },
        }
    }

    /// Consume one message from the presentation layer: mutate the session
    /// exactly as [`step`] says and return the effect the caller owes.
    pub fn update(&mut self, message: Message) -> (eff: Effect)
        ensures
            final(self)@ == step(old(self)@, message@).0,
            eff@ == step(old(self)@, message@).1,
    {
        match message {
            Message::Search(ev) => {
                self.staged_sig_all_filtered = None;
                self.handle_search(ev)
            },
            Message::CollectedData(data) => {
                if matches!(self.freeze, Freeze::Enabled(_)) {
                    self.freeze = Freeze::Enabled(Some(data));
                } else {
                    self.last_data = data;
                    self.sort_rows();
                    self.filter_rows();
                }
                Effect::NoOp
            },
            Message::Freeze(enable) => {
                self.staged_sig_all_filtered = None;
                self.set_freeze(false);
                self.sort_rows();
                self.filter_rows();
                self.set_freeze(enable);
                Effect::NoOp
            },
            Message::ToggleFreeze => {
                self.staged_sig_all_filtered = None;
                if matches!(self.freeze, Freeze::Enabled(_)) {
                    self.set_freeze(false);
                    self.sort_rows();
                    self.filter_rows();
                } else {
                    self.set_freeze(true);
                }
                Effect::NoOp
            },
            Message::SetSortField(sort_field) => {
                self.staged_sig_all_filtered = None;
                self.sort.column = sort_field;
                self.sort_rows();
                self.filter_rows();
                Effect::NoOp
            },
            Message::Back => {
                self.staged_sig_all_filtered = None;
                if matches!(self.freeze, Freeze::Enabled(_)) {
                    self.set_freeze(false);
                    self.sort_rows();
                    self.filter_rows();
                    Effect::NoOp
                } else {
                    self.handle_search(TextInputAction::Hide)
                }
            },
            Message::Enter => {
                match self.staged_sig_all_filtered {
                    Some(sig) => {
                        self.staged_sig_all_filtered = None;
                        let pids = collect_pids(&self.rows);
                        self.set_freeze(false);
                        self.sort_rows();
                        self.filter_rows();
                        self.set_freeze(true);
                        Effect::Dispatch { signal: sig, pids }
                    },
                    None => Effect::NoOp,
                }
            },
            Message::StageSignalAllFiltered(sig) => {
                if matches!(self.freeze, Freeze::Enabled(_)) && self.search.text.as_str(
                ).unicode_len() >= self.min_stage_search_len {
                    self.staged_sig_all_filtered = Some(sig);
                }
                Effect::NoOp
            },
        }
    }
}

/// Deliver a sequence of snapshots to the session, one step each.
pub open spec fn deliver_all(m: AppModel, snaps: Seq<SnapshotModel>) -> AppModel
    decreases snaps.len(),
{
    if snaps.len() == 0 {
        m
    } else {
        deliver_all(step(m, MessageModel::CollectedData(snaps[0])).0, snaps.drop_first())
    }
}

/// Law (freeze invariant): while freeze is enabled, delivering any number of
/// snapshots changes nothing but the pending slot — in particular the visible
/// rows stay as they are — and the pending slot holds exactly the latest
/// snapshot, never an intermediate one.
pub proof fn lemma_freeze_buffers_deliveries(m: AppModel, snaps: Seq<SnapshotModel>)
    requires
        m.freeze is Enabled,
    ensures
        deliver_all(m, snaps).rows == m.rows,
        snaps.len() == 0 ==> deliver_all(m, snaps) == m,
        snaps.len() > 0 ==> deliver_all(m, snaps) == (AppModel {
            freeze: FreezeModel::Enabled(Some(snaps.last())),
            ..m
        }),
    decreases snaps.len(),
{
    if snaps.len() > 0 {
        let delivered = step(m, MessageModel::CollectedData(snaps[0])).0;
        assert(delivered == AppModel {
            freeze: FreezeModel::Enabled(Some(snaps[0])),
            ..m
        });
        lemma_freeze_buffers_deliveries(delivered, snaps.drop_first());
        if snaps.len() > 1 {
            assert(snaps.drop_first().last() == snaps.last());
        }
    }
}

/// Law: disabling freeze after a burst of buffered deliveries commits exactly
/// the latest snapshot — the live data become that snapshot's rows, re-sorted
/// by the active sort and re-filtered by the active search.
pub proof fn lemma_unfreeze_shows_latest(m: AppModel, snaps: Seq<SnapshotModel>)
    requires
        m.freeze is Enabled,
        snaps.len() > 0,
    ensures
        ({
            let after = step(deliver_all(m, snaps), MessageModel::ToggleFreeze).0;
            &&& after.freeze is Disabled
            &&& after.data_rows == sort_by_column_spec(
                snaps.last().rows,
                m.sort_column,
                m.sort_order,
            )
            &&& after.data_memory == snaps.last().memory
            &&& after.rows == filtered_rows(after.data_rows, m.search_visible, m.search_text)
        }),
{
    lemma_freeze_buffers_deliveries(m, snaps);
}

/// Law: staging a signal is guarded.  Unless freeze is enabled and the search
/// phrase is at least the configured minimum length, the command leaves the
/// session untouched (in particular a staged signal stays absent); when the
/// guard holds, the signal is recorded and nothing else changes.
pub proof fn lemma_stage_signal_gate(m: AppModel, sig: SignalKind)
    ensures
        !(m.freeze is Enabled && m.search_text.len() >= m.min_stage_len) ==> step(
            m,
            MessageModel::Stage(sig),
        ).0 == m,
        (m.freeze is Enabled && m.search_text.len() >= m.min_stage_len) ==> step(
            m,
            MessageModel::Stage(sig),
        ).0 == (AppModel { staged: Some(sig), ..m }),
{
}

/// Law: changing the sort field while a signal is staged clears the staged
/// signal.
pub proof fn lemma_sort_field_change_clears_staged(m: AppModel, col: ColumnKind)
    ensures
        step(m, MessageModel::SetSortField(col)).0.staged is None,
{
}

} // verus!
