//! The review queue: accepting and rejecting items, and the key and mouse
//! handling of the terminal interface, as a state machine over plain events.
//! The program draws the state and feeds the events; this module decides.

use vstd::prelude::*;
use crate::models::{Decision, ReviewItem, ReviewItemView, Risk};

verus! {

/// Whether an item is low risk and still undecided: `A` accepts exactly these.
pub open spec fn is_pending_low(it: ReviewItemView) -> bool {
    it.analysis.risk == Risk::Low && it.decision is None
}

/// The item with its decision set to `Accept`.
pub open spec fn accepted(it: ReviewItemView) -> ReviewItemView {
    ReviewItemView { decision: Some(Decision::Accept), ..it }
}

/// The items after accepting every undecided low-risk one.
pub open spec fn accept_low(items: Seq<ReviewItemView>) -> Seq<ReviewItemView> {
    items.map_values(|it: ReviewItemView| if is_pending_low(it) { accepted(it) } else { it })
}

/// The views of a sequence of review items.
pub open spec fn items_view(items: Seq<ReviewItem>) -> Seq<ReviewItemView> {
    items.map_values(|it: ReviewItem| it@)
}

/// The number of items that carry a decision.
pub open spec fn decided_count(items: Seq<ReviewItemView>) -> nat
    decreases items.len(),
{
    if items.len() == 0 {
        0
    } else {
        decided_count(items.drop_last()) + if items.last().decision is Some { 1nat } else { 0nat }
    }
}

/// Accepts every low-risk item that is still undecided; decided items stay as they are.
pub fn accept_all_low(items: &mut Vec<ReviewItem>)
    ensures
        items_view(final(items)@) == accept_low(items_view(old(items)@)),
{
    let ghost start = items_view(items@);
    let mut i: usize = 0;
    while i < items.len()
        invariant
            i <= items.len(),
            start.len() == items.len(),
            forall|k: int| 0 <= k < i ==> #[trigger] items@[k]@ == accept_low(start)[k],
            forall|k: int| i <= k < items.len() ==> #[trigger] items@[k]@ == start[k],
        decreases items.len() - i,
    {
        let ghost before = items@;
        assert(accept_low(start)[i as int] == (if is_pending_low(start[i as int]) {
            accepted(start[i as int])
        } else {
            start[i as int]
        }));
        if items[i].analysis.risk == Risk::Low && items[i].decision.is_none() {
            items[i].decision = Some(Decision::Accept);
            assert(items@[i as int]@ == accepted(before[i as int]@));
        }
        assert(forall|k: int| 0 <= k < items.len() && k != i ==> items@[k] == before[k]);
        i = i + 1;
    }
    assert(items_view(items@) =~= accept_low(start));
}

/// How many items are decided, and how many there are.
pub fn progress(items: &[ReviewItem]) -> (r: (usize, usize))
    ensures
        r.0 == decided_count(items_view(items@)),
        r.1 == items.len(),
{
    let ghost all = items_view(items@);
    let mut decided: usize = 0;
    let mut i: usize = 0;
    assert(all.take(0) =~= Seq::<ReviewItemView>::empty());
    while i < items.len()
        invariant
            i <= items.len(),
            all == items_view(items@),
            decided == decided_count(all.take(i as int)),
            decided <= i,
        decreases items.len() - i,
    {
        assert(all.take(i + 1).drop_last() == all.take(i as int));
        if items[i].decision.is_some() {
            decided = decided + 1;
        }
        i = i + 1;
    }
    assert(all.take(items.len() as int) == all);
    (decided, items.len())
}

/// Accepting every low-risk item twice is accepting them once.
pub proof fn law_accept_low_idempotent(items: Seq<ReviewItemView>)
    ensures
        accept_low(accept_low(items)) == accept_low(items),
        forall|i: int| 0 <= i < items.len() ==> !is_pending_low(#[trigger] accept_low(items)[i]),
        forall|i: int|
            0 <= i < items.len() && (#[trigger] items[i]).decision is Some ==> accept_low(items)[i]
                == items[i],
{
    assert(accept_low(accept_low(items)) =~= accept_low(items));
}

/// No more items are decided than there are.
pub proof fn law_progress_bounded(items: Seq<ReviewItemView>)
    ensures
        decided_count(items) <= items.len(),
    decreases items.len(),
{
    if items.len() > 0 {
        law_progress_bounded(items.drop_last());
    }
}

/// Whether every item decided in `a` is still decided in `b`, and no item came or went.
pub open spec fn keeps_decisions(a: Seq<ReviewItemView>, b: Seq<ReviewItemView>) -> bool {
    &&& a.len() == b.len()
    &&& forall|i: int| 0 <= i < a.len() && (#[trigger] a[i]).decision is Some ==> b[i].decision is Some
}

proof fn lemma_keeps_decisions_count(a: Seq<ReviewItemView>, b: Seq<ReviewItemView>)
    requires
        keeps_decisions(a, b),
    ensures
        decided_count(a) <= decided_count(b),
    decreases a.len(),
{
    if a.len() > 0 {
        assert forall|i: int|
            0 <= i < a.drop_last().len() && (#[trigger] a.drop_last()[i]).decision is Some implies b.drop_last()[i].decision is Some by {
            assert(a.drop_last()[i] == a[i]);
            assert(b.drop_last()[i] == b[i]);
        }
        lemma_keeps_decisions_count(a.drop_last(), b.drop_last());
        assert(a.last() == a[a.len() - 1]);
    }
}

/// A decision, once made, is never undone: no key, in either mode, takes an item out of
/// the queue or its decision away, so the count of decided items never goes down.
pub proof fn law_decisions_stay(s: ReviewStateView, key: Key, rkey: RejectKeyView)
    requires
        key == Key::Char('a') ==> selection_ok(s),
        rkey matches RejectKeyView::Submit(r) && r.len() > 0 ==> selection_ok(s),
    ensures
        keeps_decisions(s.items, after_normal_key(s, key).items),
        keeps_decisions(s.items, after_reject_key(s, rkey).items),
        decided_count(s.items) <= decided_count(after_normal_key(s, key).items),
        decided_count(s.items) <= decided_count(after_reject_key(s, rkey).items),
{
    lemma_keeps_decisions_count(s.items, after_normal_key(s, key).items);
    lemma_keeps_decisions_count(s.items, after_reject_key(s, rkey).items);
}

/// The queue pane keeps between 20% and 80% of the width through every key and every
/// mouse event.
pub proof fn law_pane_width_bounded(s: ReviewStateView, key: Key, rkey: RejectKeyView, ev: MouseInput, width: u16)
    requires
        pct_ok(s),
    ensures
        pct_ok(after_normal_key(s, key)),
        pct_ok(after_reject_key(s, rkey)),
        pct_ok(after_mouse(s, ev, width)),
{
}

/// Whether the interface takes commands or a reject reason.
#[derive(Debug, Clone, Copy, PartialEq, Eq, Structural)]
pub enum Mode {
    Normal,
    RejectInput,
}

/// Which pane the arrow keys act on.
#[derive(Debug, Clone, Copy, PartialEq, Eq, Structural)]
pub enum Focus {
    Queue,
    Detail,
}

/// A key, as far as the interface tells keys apart.
#[derive(Debug, Clone, Copy, PartialEq, Eq, Structural)]
pub enum Key {
    Char(char),
    Down,
    Up,
    PageDown,
    PageUp,
    Home,
    End,
    Enter,
    Esc,
    Other,
}

/// What the program does after a key in command mode.
#[derive(Debug)]
pub enum KeyAction {
    /// Nothing beyond the new state.
    Continue,
    /// Leave the interface.
    Quit,
    /// Report the new progress.
    ReportProgress,
    /// Open an empty reject-reason editor.
    StartReject,
    /// Hand these rejected items to the sender, then leave.
    SendAndQuit(Vec<ReviewItem>),
}

/// The state of the review interface.
pub struct ReviewState {
    pub items: Vec<ReviewItem>,
    pub selected: Option<usize>,
    pub mode: Mode,
    pub focus: Focus,
    pub diff_scroll: u16,
    pub max_diff_scroll: u16,
    pub hover_split: bool,
    pub last_table_row: Option<usize>,
    pub queue_pct: u16,
    pub dragging: bool,
}

/// The mathematical value of a [`ReviewState`].
pub struct ReviewStateView {
    pub items: Seq<ReviewItemView>,
    pub selected: Option<usize>,
    pub mode: Mode,
    pub focus: Focus,
    pub diff_scroll: u16,
    pub max_diff_scroll: u16,
    pub hover_split: bool,
    pub last_table_row: Option<usize>,
    pub queue_pct: u16,
    pub dragging: bool,
}

impl View for ReviewState {
    type V = ReviewStateView;

    open spec fn view(&self) -> ReviewStateView {
        ReviewStateView {
            items: items_view(self.items@),
            selected: self.selected,
            mode: self.mode,
            focus: self.focus,
            diff_scroll: self.diff_scroll,
            max_diff_scroll: self.max_diff_scroll,
            hover_split: self.hover_split,
            last_table_row: self.last_table_row,
            queue_pct: self.queue_pct,
            dragging: self.dragging,
        }
    }
}

/// The queue pane takes between 20 and 80 percent of the width.
pub open spec fn pct_ok(s: ReviewStateView) -> bool {
    20 <= s.queue_pct <= 80
}

/// The selection, if any, names an item.
pub open spec fn selection_ok(s: ReviewStateView) -> bool {
    s.selected matches Some(i) ==> i < s.items.len()
}

/// The state of a fresh interface: the first item selected if there is one.
pub open spec fn initial_review(items: Seq<ReviewItemView>) -> ReviewStateView {
    ReviewStateView {
        items,
        selected: if items.len() > 0 { Some(0) } else { None },
        mode: Mode::Normal,
        focus: Focus::Queue,
        diff_scroll: 0,
        max_diff_scroll: 0,
        hover_split: false,
        last_table_row: Some(0),
        queue_pct: 50,
        dragging: false,
    }
}

/// `as u16` on a non-negative number: its remainder modulo 2^16.
pub open spec fn wrap16(x: int) -> u16 {
    (x % 65536) as u16
}

/// The scroll position after moving by `delta` lines: not below 0 nor past the end.
pub open spec fn scrolled(s: ReviewStateView, delta: int) -> u16 {
    let next = if s.diff_scroll + delta < 0 { 0 } else { s.diff_scroll + delta };
    let n = wrap16(next);
    if n <= s.max_diff_scroll { n } else { s.max_diff_scroll }
}

/// The row that the table selects after moving down (`TableState::select_next`).
pub open spec fn next_row(sel: Option<usize>) -> usize {
    match sel {
        Some(i) => if i == usize::MAX { i } else { (i + 1) as usize },
        None => 0,
    }
}

/// The row that the table selects after moving up (`TableState::select_previous`).
pub open spec fn previous_row(sel: Option<usize>) -> usize {
    match sel {
        Some(i) => if i == 0 { 0 } else { (i - 1) as usize },
        None => usize::MAX,
    }
}

/// The state after the selection moves to `row`: the diff scrolls back to the top when
/// the row changed.
pub open spec fn moved_to(s: ReviewStateView, row: usize) -> ReviewStateView {
    if Some(row) != s.last_table_row {
        ReviewStateView { selected: Some(row), diff_scroll: 0, last_table_row: Some(row), ..s }
    } else {
        ReviewStateView { selected: Some(row), ..s }
    }
}

/// The item after a decision on it.
pub open spec fn decided(it: ReviewItemView, d: Decision, reason: Option<Seq<char>>) -> ReviewItemView {
    ReviewItemView { decision: Some(d), reject_reason: reason, ..it }
}

/// The state after `a`: the selected item is accepted and loses any reject reason.
pub open spec fn accept_selected(s: ReviewStateView) -> ReviewStateView {
    match s.selected {
        Some(i) => ReviewStateView {
            items: s.items.update(i as int, decided(s.items[i as int], Decision::Accept, None)),
            ..s
        },
        None => s,
    }
}

/// The items that carry a `Reject` decision, in queue order.
pub open spec fn rejected_items(items: Seq<ReviewItemView>) -> Seq<ReviewItemView>
    decreases items.len(),
{
    if items.len() == 0 {
        seq![]
    } else if items.last().decision == Some(Decision::Reject) {
        rejected_items(items.drop_last()).push(items.last())
    } else {
        rejected_items(items.drop_last())
    }
}

/// The state after a key in command mode.
pub open spec fn after_normal_key(s: ReviewStateView, key: Key) -> ReviewStateView {
    match key {
        Key::Char('j') => moved_to(s, next_row(s.selected)),
        Key::Char('k') => moved_to(s, previous_row(s.selected)),
        Key::Down => if s.focus == Focus::Detail {
            ReviewStateView { diff_scroll: scrolled(s, 1), ..s }
        } else {
            moved_to(s, next_row(s.selected))
        },
        Key::Up => if s.focus == Focus::Detail {
            ReviewStateView { diff_scroll: scrolled(s, -1), ..s }
        } else {
            moved_to(s, previous_row(s.selected))
        },
        Key::PageDown => if s.focus == Focus::Detail {
            ReviewStateView { diff_scroll: scrolled(s, 10), ..s }
        } else {
            s
        },
        Key::PageUp => if s.focus == Focus::Detail {
            ReviewStateView { diff_scroll: scrolled(s, -10), ..s }
        } else {
            s
        },
        Key::Home => if s.focus == Focus::Detail {
            ReviewStateView { diff_scroll: 0, ..s }
        } else {
            s
        },
        Key::End => if s.focus == Focus::Detail {
            ReviewStateView { diff_scroll: s.max_diff_scroll, ..s }
        } else {
            s
        },
        Key::Enter => ReviewStateView { focus: Focus::Detail, ..s },
        Key::Esc => ReviewStateView { focus: Focus::Queue, ..s },
        Key::Char('a') => accept_selected(s),
        Key::Char('A') => ReviewStateView { items: accept_low(s.items), ..s },
        Key::Char('r') => if s.selected is Some {
            ReviewStateView { mode: Mode::RejectInput, ..s }
        } else {
            s
        },
        Key::Char('[') => ReviewStateView {
            queue_pct: if s.queue_pct < 30 { 20 } else { (s.queue_pct - 10) as u16 },
            ..s
        },
        Key::Char(']') => ReviewStateView {
            queue_pct: if s.queue_pct + 10 > 80 { 80 } else { (s.queue_pct + 10) as u16 },
            ..s
        },
        _ => s,
    }
}

/// What the program does after a key in command mode, in terms of views: 0 continue,
/// 1 quit, 2 report progress, 3 open the reject editor, 4 send and quit.
pub open spec fn normal_key_action(s: ReviewStateView, key: Key) -> nat {
    match key {
        Key::Char('q') => 1,
        Key::Char('a') => if s.selected is Some { 2 } else { 0 },
        Key::Char('A') => 2,
        Key::Char('r') => if s.selected is Some { 3 } else { 0 },
        Key::Char('s') => 4,
        _ => 0,
    }
}

/// The code of an action, as `normal_key_action` numbers them.
pub open spec fn action_code(a: KeyAction) -> nat {
    match a {
        KeyAction::Continue => 0,
        KeyAction::Quit => 1,
        KeyAction::ReportProgress => 2,
        KeyAction::StartReject => 3,
        KeyAction::SendAndQuit(_) => 4,
    }
}

/// The rejected items of the queue, copied, in queue order.
pub fn collect_rejected(items: &Vec<ReviewItem>) -> (r: Vec<ReviewItem>)
    ensures
        items_view(r@) == rejected_items(items_view(items@)),
{
    let ghost all = items_view(items@);
    let mut r: Vec<ReviewItem> = Vec::new();
    let mut i: usize = 0;
    assert(all.take(0) =~= Seq::<ReviewItemView>::empty());
    while i < items.len()
        invariant
            i <= items.len(),
            all == items_view(items@),
            items_view(r@) == rejected_items(all.take(i as int)),
        decreases items.len() - i,
    {
        assert(all.take(i + 1).drop_last() == all.take(i as int));
        assert(all.take(i + 1).last() == items@[i as int]@);
        if items[i].decision == Some(Decision::Reject) {
            let ghost before = items_view(r@);
            r.push(items[i].duplicate());
            assert(items_view(r@) =~= before.push(items@[i as int]@));
        }
        i = i + 1;
    }
    assert(all.take(items.len() as int) == all);
    r
}

impl ReviewState {
    /// A fresh interface over the queue.
    pub fn new(items: Vec<ReviewItem>) -> (s: ReviewState)
        ensures
            s@ == initial_review(items_view(items@)),
    {
        let selected = if items.len() > 0 { Some(0) } else { None };
        ReviewState {
            items,
            selected,
            mode: Mode::Normal,
            focus: Focus::Queue,
            diff_scroll: 0,
            max_diff_scroll: 0,
            hover_split: false,
            last_table_row: Some(0),
            queue_pct: 50,
            dragging: false,
        }
    }

    /// Moves the diff by `delta` lines, within `0..=max_diff_scroll`.
    fn scroll_diff(&mut self, delta: i32)
        requires
            -10 <= delta <= 10,
        ensures
            final(self)@ == (ReviewStateView { diff_scroll: scrolled(old(self)@, delta as int), ..old(self)@ }),
    {
        let next: i32 = if (self.diff_scroll as i32) + delta < 0 {
            0
        } else {
            (self.diff_scroll as i32) + delta
        };
        let n = (next % 65536) as u16;
        self.diff_scroll = if n <= self.max_diff_scroll { n } else { self.max_diff_scroll };
    }

    fn move_to(&mut self, row: usize)
        ensures
            final(self)@ == moved_to(old(self)@, row),
    {
        self.selected = Some(row);
        if Some(row) != self.last_table_row {
            self.diff_scroll = 0;
            self.last_table_row = Some(row);
        }
    }

    fn move_down(&mut self)
        ensures
            final(self)@ == moved_to(old(self)@, next_row(old(self)@.selected)),
    {
        let row = match self.selected {
            Some(i) => i.saturating_add(1),
            None => 0,
        };
        self.move_to(row);
    }

    fn move_up(&mut self)
        ensures
            final(self)@ == moved_to(old(self)@, previous_row(old(self)@.selected)),
    {
        let row = match self.selected {
            Some(i) => i.saturating_sub(1),
            None => usize::MAX,
        };
        self.move_to(row);
    }

    /// Handles a key in command mode (`q` quit, `j`/`k` and the arrows move, `a`
    /// accepts, `A` accepts all low-risk items, `r` asks for a reject reason, `s` sends
    /// the rejected items and quits, `[`/`]` resize the panes, `Enter`/`Esc` switch
    /// panes, `PgUp`/`PgDn`/`Home`/`End` scroll the diff).
    pub fn handle_normal_key(&mut self, key: Key) -> (a: KeyAction)
        requires
            pct_ok(old(self)@),
            key == Key::Char('a') ==> selection_ok(old(self)@),
        ensures
            pct_ok(final(self)@),
            final(self)@ == after_normal_key(old(self)@, key),
            action_code(a) == normal_key_action(old(self)@, key),
            a matches KeyAction::SendAndQuit(r) ==> items_view(r@) == rejected_items(old(self)@.items),
    {
        match key {
            Key::Char('q') => return KeyAction::Quit,
            Key::Char('j') => self.move_down(),
            Key::Char('k') => self.move_up(),
            Key::Down => {
                if self.focus == Focus::Detail {
                    self.scroll_diff(1);
                } else {
                    self.move_down();
                }
            },
            Key::Up => {
                if self.focus == Focus::Detail {
                    self.scroll_diff(-1);
                } else {
                    self.move_up();
                }
            },
            Key::PageDown => {
                if self.focus == Focus::Detail {
                    self.scroll_diff(10);
                }
            },
            Key::PageUp => {
                if self.focus == Focus::Detail {
                    self.scroll_diff(-10);
                }
            },
            Key::Home => {
                if self.focus == Focus::Detail {
                    self.diff_scroll = 0;
                }
            },
            Key::End => {
                if self.focus == Focus::Detail {
                    self.diff_scroll = self.max_diff_scroll;
                }
            },
            Key::Enter => {
                self.focus = Focus::Detail;
            },
            Key::Esc => {
                self.focus = Focus::Queue;
            },
            Key::Char('a') => {
                if let Some(i) = self.selected {
                    let ghost before = self.items@;
                    self.items[i].decision = Some(Decision::Accept);
                    self.items[i].reject_reason = None;
                    assert(items_view(self.items@) =~= items_view(before).update(
                        i as int,
                        decided(items_view(before)[i as int], Decision::Accept, None),
                    ));
                    return KeyAction::ReportProgress;
                }
            },
            Key::Char('A') => {
                accept_all_low(&mut self.items);
                return KeyAction::ReportProgress;
            },
            Key::Char('r') => {
                if self.selected.is_some() {
                    self.mode = Mode::RejectInput;
                    return KeyAction::StartReject;
                }
            },
            Key::Char('s') => {
                let rejects = collect_rejected(&self.items);
                return KeyAction::SendAndQuit(rejects);
            },
            Key::Char('[') => {
                let p = self.queue_pct.saturating_sub(10);
                self.queue_pct = if p < 20 { 20 } else { p };
            },
            Key::Char(']') => {
                let p = self.queue_pct + 10;
                self.queue_pct = if p > 80 { 80 } else { p };
            },
            _ => {},
        }
        KeyAction::Continue
    }

    /// Handles a key in reject-reason mode. `Submit` carries the editor's text: a
    /// non-empty reason rejects the selected item; `Submit` and `Cancel` return to
    /// command mode. Returns whether progress changed.
    pub fn handle_reject_key(&mut self, key: RejectKey) -> (changed: bool)
        requires
            key matches RejectKey::Submit(r) && r@.len() > 0 ==> selection_ok(old(self)@),
        ensures
            final(self)@ == after_reject_key(old(self)@, reject_key_view(key)),
            changed == (reject_key_view(key) matches RejectKeyView::Submit(r) && r.len() > 0
                && old(self)@.selected is Some),
    {
        match key {
            RejectKey::Submit(reason) => {
                let mut changed = false;
                if !reason.as_str().is_empty() {
                    if let Some(i) = self.selected {
                        let ghost before = self.items@;
                        let ghost r = reason@;
                        self.items[i].decision = Some(Decision::Reject);
                        self.items[i].reject_reason = Some(reason);
                        assert(items_view(self.items@) =~= items_view(before).update(
                            i as int,
                            decided(items_view(before)[i as int], Decision::Reject, Some(r)),
                        ));
                        changed = true;
                    }
                }
                self.mode = Mode::Normal;
                changed
            },
            RejectKey::Cancel => {
                self.mode = Mode::Normal;
                false
            },
            RejectKey::Edit => false,
        }
    }

    /// Handles a mouse event over a terminal `width` columns wide: a left press near the
    /// pane border starts a drag, a drag moves the border (kept between 20% and 80%), and
    /// the border is highlighted while the pointer is near it.
    pub fn handle_mouse(&mut self, ev: MouseInput, width: u16)
        requires
            pct_ok(old(self)@),
            no_border_overflow(old(self)@, ev.column, width),
        ensures
            pct_ok(final(self)@),
            final(self)@ == after_mouse(old(self)@, ev, width),
    {
        let w32 = width as u32;
        let p32 = self.queue_pct as u32;
        assert(w32 * p32 <= 65535 * 80) by (nonlinear_arith)
            requires
                w32 <= 65535,
                p32 <= 80,
        ;
        let split_x = (w32 * p32 / 100) as u16;
        let c = as_i16(ev.column);
        let sx = as_i16(split_x);
        let diff = c - sx;
        let near = -1 <= diff && diff <= 1;
        match ev.kind {
            MouseKind::LeftDown => {
                if near {
                    self.dragging = true;
                }
            },
            MouseKind::LeftDrag => {
                if self.dragging {
                    let w: u32 = if width == 0 { 1 } else { width as u32 };
                    let raw: u32 = (ev.column as u32) * 100 / w;
                    let p = (raw % 65536) as u16;
                    self.queue_pct = if p < 20 { 20 } else if p > 80 { 80 } else { p };
                    self.hover_split = true;
                }
            },
            MouseKind::LeftUp => {
                self.dragging = false;
                self.hover_split = near;
            },
            MouseKind::Moved => {
                self.hover_split = near;
            },
            MouseKind::Other => {},
        }
    }

    /// Records the row that the table shows as selected after it was drawn.
    pub fn set_selected(&mut self, row: Option<usize>)
        ensures
            final(self)@ == (ReviewStateView { selected: row, ..old(self)@ }),
    {
        self.selected = row;
    }

    /// Records how far the diff of the selected item can scroll, and keeps the
    /// scroll position within it.
    pub fn set_max_diff_scroll(&mut self, max: u16)
        ensures
            final(self)@ == (ReviewStateView {
                max_diff_scroll: max,
                diff_scroll: if old(self)@.diff_scroll > max { max } else { old(self)@.diff_scroll },
                ..old(self)@
            }),
    {
        self.max_diff_scroll = max;
        if self.diff_scroll > max {
            self.diff_scroll = max;
        }
    }
}

/// A key in reject-reason mode: `Enter` with the editor's text, `Esc`, or any other
/// key, which the editor itself handles.
pub enum RejectKey {
    Submit(String),
    Cancel,
    Edit,
}

/// The mathematical value of a [`RejectKey`].
pub enum RejectKeyView {
    Submit(Seq<char>),
    Cancel,
    Edit,
}

/// The view of a reject-mode key.
pub open spec fn reject_key_view(k: RejectKey) -> RejectKeyView {
    match k {
        RejectKey::Submit(s) => RejectKeyView::Submit(s@),
        RejectKey::Cancel => RejectKeyView::Cancel,
        RejectKey::Edit => RejectKeyView::Edit,
    }
}

/// The state after a key in reject-reason mode.
pub open spec fn after_reject_key(s: ReviewStateView, key: RejectKeyView) -> ReviewStateView {
    match key {
        RejectKeyView::Submit(r) => {
            let s1 = if r.len() > 0 && s.selected is Some {
                let i = s.selected->0;
                ReviewStateView {
                    items: s.items.update(i as int, decided(s.items[i as int], Decision::Reject, Some(r))),
                    ..s
                }
            } else {
                s
            };
            ReviewStateView { mode: Mode::Normal, ..s1 }
        },
        RejectKeyView::Cancel => ReviewStateView { mode: Mode::Normal, ..s },
        RejectKeyView::Edit => s,
    }
}

/// The kind of a mouse event, as far as the interface tells them apart.
#[derive(Debug, Clone, Copy, PartialEq, Eq, Structural)]
pub enum MouseKind {
    LeftDown,
    LeftDrag,
    LeftUp,
    Moved,
    Other,
}

/// A mouse event: its kind and its column.
#[derive(Debug, Clone, Copy, PartialEq, Eq, Structural)]
pub struct MouseInput {
    pub kind: MouseKind,
    pub column: u16,
}

/// `x as i16`.
pub open spec fn i16_of(x: u16) -> int {
    if x < 32768 { x as int } else { x - 65536 }
}

fn as_i16(x: u16) -> (r: i32)
    ensures
        r == i16_of(x),
{
    if x < 32768 { x as i32 } else { x as i32 - 65536 }
}

/// The column of the border between the panes.
pub open spec fn split_column(s: ReviewStateView, width: u16) -> u16 {
    (width * s.queue_pct / 100) as u16
}

/// The border distance fits an `i16`, as the arithmetic on columns needs.
pub open spec fn no_border_overflow(s: ReviewStateView, column: u16, width: u16) -> bool {
    -32768 <= i16_of(column) - i16_of(split_column(s, width)) <= 32767
}

/// Whether the pointer is within one column of the border.
pub open spec fn near_split(s: ReviewStateView, column: u16, width: u16) -> bool {
    -1 <= i16_of(column) - i16_of(split_column(s, width)) <= 1
}

/// The pane width that a drag to `column` asks for, kept between 20% and 80%.
pub open spec fn dragged_pct(column: u16, width: u16) -> u16 {
    let w = if width == 0 { 1 } else { width as int };
    let p = wrap16(column * 100 / w);
    if p < 20 { 20 } else if p > 80 { 80 } else { p }
}

/// The state after a mouse event.
pub open spec fn after_mouse(s: ReviewStateView, ev: MouseInput, width: u16) -> ReviewStateView {
    let near = near_split(s, ev.column, width);
    match ev.kind {
        MouseKind::LeftDown => if near { ReviewStateView { dragging: true, ..s } } else { s },
        MouseKind::LeftDrag => if s.dragging {
            ReviewStateView { queue_pct: dragged_pct(ev.column, width), hover_split: true, ..s }
        } else {
            s
        },
        MouseKind::LeftUp => ReviewStateView { dragging: false, hover_split: near, ..s },
        MouseKind::Moved => ReviewStateView { hover_split: near, ..s },
        MouseKind::Other => s,
    }
}


/// `A` touches only undecided low-risk items: each of them becomes accepted with
/// everything else about it kept, and every other item (medium or high risk, or
/// already decided) stays exactly as it was; no item comes or goes.
pub proof fn law_accept_low_touches_only_pending_low(items: Seq<ReviewItemView>)
    ensures
        accept_low(items).len() == items.len(),
        forall|i: int|
            0 <= i < items.len() && ((#[trigger] items[i]).analysis.risk != Risk::Low || items[i].decision
                is Some) ==> accept_low(items)[i] == items[i],
        forall|i: int|
            0 <= i < items.len() && (#[trigger] items[i]).analysis.risk == Risk::Low && items[i].decision
                is None ==> {
                &&& accept_low(items)[i].decision == Some(Decision::Accept)
                &&& accept_low(items)[i].semantic == items[i].semantic
                &&& accept_low(items)[i].analysis == items[i].analysis
                &&& accept_low(items)[i].reject_reason == items[i].reject_reason
            },
{
}

/// `s` hands over exactly the rejected items: the queue's items whose decision is
/// `Reject`, in queue order, and nothing else (no accepted or undecided item).
pub proof fn law_send_hands_over_rejected(items: Seq<ReviewItemView>)
    ensures
        rejected_items(items) == items.filter(|it: ReviewItemView| it.decision == Some(Decision::Reject)),
        forall|i: int|
            0 <= i < rejected_items(items).len() ==> (#[trigger] rejected_items(items)[i]).decision == Some(
                Decision::Reject,
            ),
        forall|i: int|
            0 <= i < items.len() && (#[trigger] items[i]).decision == Some(Decision::Reject)
                ==> rejected_items(items).contains(items[i]),
    decreases items.len(),
{
    reveal(Seq::filter);
    let pred = |it: ReviewItemView| it.decision == Some(Decision::Reject);
    if items.len() > 0 {
        law_send_hands_over_rejected(items.drop_last());
        let rest = rejected_items(items.drop_last());
        assert forall|i: int|
            0 <= i < items.len() && (#[trigger] items[i]).decision == Some(Decision::Reject)
                implies rejected_items(items).contains(items[i]) by {
            if i < items.len() - 1 {
                assert(items.drop_last()[i] == items[i]);
                let j = choose|j: int| 0 <= j < rest.len() && rest[j] == items[i];
                assert(rejected_items(items)[j] == items[i]);
            } else {
                assert(rejected_items(items)[rejected_items(items).len() - 1] == items[i]);
            }
        }
    }
    assert(rejected_items(items) == items.filter(pred));
}

/// In reject-reason mode only a submitted non-empty reason changes an item: it rejects
/// the selected item with that reason, keeping its hunk and analysis, and leaves every
/// other item as it was. `Esc`, an editing key, or an empty reason change no item.
pub proof fn law_reject_key_effects(s: ReviewStateView, r: Seq<char>)
    requires
        selection_ok(s),
    ensures
        after_reject_key(s, RejectKeyView::Cancel).items == s.items,
        after_reject_key(s, RejectKeyView::Cancel).mode == Mode::Normal,
        after_reject_key(s, RejectKeyView::Edit).items == s.items,
        r.len() == 0 ==> after_reject_key(s, RejectKeyView::Submit(r)).items == s.items,
        after_reject_key(s, RejectKeyView::Submit(r)).mode == Mode::Normal,
        after_reject_key(s, RejectKeyView::Submit(r)).items.len() == s.items.len(),
        r.len() > 0 && s.selected is Some ==> ({
            let i = s.selected->0 as int;
            let t = after_reject_key(s, RejectKeyView::Submit(r)).items;
            &&& t[i].decision == Some(Decision::Reject)
            &&& t[i].reject_reason == Some(r)
            &&& t[i].semantic == s.items[i].semantic
            &&& t[i].analysis == s.items[i].analysis
            &&& forall|j: int| 0 <= j < s.items.len() && j != i ==> #[trigger] t[j] == s.items[j]
        }),
        s.selected is None ==> after_reject_key(s, RejectKeyView::Submit(r)).items == s.items,
{
}


/// In command mode only `a` and `A` touch the items. `a` accepts the selected item,
/// drops its reject reason and keeps its hunk and analysis, leaving every other item as
/// it was; `A` accepts the undecided low-risk items (see
/// `law_accept_low_touches_only_pending_low`). Only `r`, with an item selected, opens
/// the reject editor; `q` and `s` change nothing.
pub proof fn law_normal_key_effects(s: ReviewStateView, key: Key)
    requires
        selection_ok(s),
    ensures
        key != Key::Char('a') && key != Key::Char('A') ==> after_normal_key(s, key).items == s.items,
        key == Key::Char('A') ==> after_normal_key(s, key).items == accept_low(s.items),
        after_normal_key(s, key).items.len() == s.items.len(),
        key == Key::Char('a') && s.selected is None ==> after_normal_key(s, key).items == s.items,
        key == Key::Char('a') && s.selected is Some ==> ({
            let i = s.selected->0 as int;
            let t = after_normal_key(s, key).items;
            &&& t[i].decision == Some(Decision::Accept)
            &&& t[i].reject_reason is None
            &&& t[i].semantic == s.items[i].semantic
            &&& t[i].analysis == s.items[i].analysis
            &&& forall|j: int| 0 <= j < s.items.len() && j != i ==> #[trigger] t[j] == s.items[j]
        }),
        (after_normal_key(s, key).mode != s.mode) <==> (key == Key::Char('r') && s.selected is Some
            && s.mode != Mode::RejectInput),
        after_normal_key(s, key).mode != s.mode ==> after_normal_key(s, key).mode == Mode::RejectInput,
        key == Key::Char('q') || key == Key::Char('s') ==> after_normal_key(s, key) == s,
{
}

/// Scrolling the diff never leaves `0..=max_diff_scroll`: from a position within it,
/// every key keeps the position within it; `Home` goes to the top and `End` to the end.
pub proof fn law_scroll_within_bounds(s: ReviewStateView, key: Key)
    requires
        s.diff_scroll <= s.max_diff_scroll,
    ensures
        after_normal_key(s, key).max_diff_scroll == s.max_diff_scroll,
        after_normal_key(s, key).diff_scroll <= s.max_diff_scroll,
        s.focus == Focus::Detail && key == Key::Home ==> after_normal_key(s, key).diff_scroll == 0,
        s.focus == Focus::Detail && key == Key::End ==> after_normal_key(s, key).diff_scroll
            == s.max_diff_scroll,
        s.focus == Focus::Detail && key == Key::Down && s.diff_scroll < s.max_diff_scroll
            ==> after_normal_key(s, key).diff_scroll == s.diff_scroll + 1,
        s.focus == Focus::Detail && key == Key::Up && s.diff_scroll > 0
            ==> after_normal_key(s, key).diff_scroll == s.diff_scroll - 1,
{
}

} // verus!
