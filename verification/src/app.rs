//! Orchestration of the two panels, the search buffer, the popup, and the
//! executor bookkeeping. The app receives abstract commands; whatever needs
//! the real world — a directory listing, an operation's outcome — is handed
//! in as plain values, and whatever the world must do — run a submitted
//! operation, delete the returned target — is handed back out.
//!
//! While a popup is open, navigation and search commands are not processed;
//! only dismissing the popup (and the commands that do not touch navigation
//! or search) gets through.

use vstd::prelude::*;

use crate::bytes::bytes_clone;
use crate::entry::Entry;
use crate::fspath::AbsPath;
use crate::listing::views;
use crate::ops::Executor;
use crate::ops::ExecutorView;
use crate::ops::OpKind;
use crate::ops::OpOutcome;
use crate::ops::OpOutcomeView;
use crate::ops::Operation;
use crate::ops::OperationView;
use crate::ops::PendingOp;
use crate::ops::PendingView;
use crate::panel::Panel;
use crate::panel::PanelView;
use crate::popup::Popup;
use crate::popup::PopupView;

verus! {

/// Which panel the commands act on.
#[derive(Clone, Copy, PartialEq, Eq, Structural, Debug)]
pub enum ActivePanel {
    Left,
    Right,
}

/// The other side.
pub open spec fn flipped(side: ActivePanel) -> ActivePanel {
    match side {
        ActivePanel::Left => ActivePanel::Right,
        ActivePanel::Right => ActivePanel::Left,
    }
}

/// Mathematical image of the whole app.
#[verifier::ext_equal]
pub ghost struct AppView {
    pub cur_panel: ActivePanel,
    pub left_panel: PanelView,
    pub right_panel: PanelView,
    pub search_str: Seq<u8>,
    pub popup: Option<PopupView>,
    pub operations: ExecutorView,
}

impl AppView {
    /// Both panels and the executor bookkeeping are well formed.
    pub open spec fn inv(self) -> bool {
        &&& self.left_panel.inv()
        &&& self.right_panel.inv()
        &&& self.operations.inv()
    }

    /// The panel the commands act on.
    pub open spec fn active(self) -> PanelView {
        match self.cur_panel {
            ActivePanel::Left => self.left_panel,
            ActivePanel::Right => self.right_panel,
        }
    }

    /// The panel whose directory is the destination of a copy or move.
    pub open spec fn other(self) -> PanelView {
        match self.cur_panel {
            ActivePanel::Left => self.right_panel,
            ActivePanel::Right => self.left_panel,
        }
    }

    /// The app with its active panel replaced.
    pub open spec fn with_active(self, p: PanelView) -> AppView {
        match self.cur_panel {
            ActivePanel::Left => AppView { left_panel: p, ..self },
            ActivePanel::Right => AppView { right_panel: p, ..self },
        }
    }

    /// The app with its search buffer emptied.
    pub open spec fn with_search_cleared(self) -> AppView {
        AppView { search_str: Seq::empty(), ..self }
    }

    /// Whether a popup blocks navigation and search.
    pub open spec fn blocked(self) -> bool {
        self.popup is Some
    }
}

/// The popup an operation failure opens.
pub open spec fn error_popup(reason: Seq<char>) -> PopupView {
    PopupView { title: "Error"@, text: reason, emphasis: true }
}

/// The popup a delete failure opens.
pub open spec fn delete_error_popup(reason: Seq<char>) -> PopupView {
    PopupView { title: "Error"@, text: reason, emphasis: false }
}

/// The outcome views of reported results.
pub open spec fn result_views(s: Seq<(u64, OpOutcome)>) -> Seq<(u64, OpOutcomeView)> {
    s.map_values(|r: (u64, OpOutcome)| (r.0, r.1@))
}

/// The reason of the first failure among the reported results, if any.
pub open spec fn first_failure(s: Seq<(u64, OpOutcomeView)>) -> Option<Seq<char>>
    decreases s.len(),
{
    if s.len() == 0 {
        None
    } else {
        match s[0].1 {
            OpOutcomeView::Failed(reason) => Some(reason),
            OpOutcomeView::Succeeded => first_failure(s.skip(1)),
        }
    }
}

/// The pending operations left after every reported handle is dropped.
pub open spec fn remove_handles(
    pending: Seq<PendingView>,
    s: Seq<(u64, OpOutcomeView)>,
) -> Seq<PendingView>
    decreases s.len(),
{
    if s.len() == 0 {
        pending
    } else {
        remove_handles(pending.filter(|p: PendingView| p.handle != s[0].0), s.skip(1))
    }
}

/// The dual-pane file manager.
pub struct App {
    pub cur_panel: ActivePanel,
    pub left_panel: Panel,
    pub right_panel: Panel,
    pub search_str: Vec<u8>,
    pub popup: Option<Popup>,
    pub operations: Executor,
}

impl View for App {
    type V = AppView;

    open spec fn view(&self) -> AppView {
        AppView {
            cur_panel: self.cur_panel,
            left_panel: self.left_panel@,
            right_panel: self.right_panel@,
            search_str: self.search_str@,
            popup: match self.popup {
                Some(p) => Some(p@),
                None => None,
            },
            operations: self.operations@,
        }
    }
}

/// Fresh entries denoting the same raw listing.
fn clone_entries(v: &Vec<Entry>) -> (r: Vec<Entry>)
    ensures
        views(r@) == views(v@),
{
    let n = v.len();
    let mut r: Vec<Entry> = Vec::new();
    let mut i: usize = 0;
    while i < n
        invariant
            n == v@.len(),
            i <= n,
            r@.len() == i,
            forall|k: int| 0 <= k < i ==> views(r@)[k] == views(v@)[k],
        decreases n - i,
    {
        r.push(v[i].clone());
        i = i + 1;
    }
    assert(views(r@) =~= views(v@));
    r
}

impl App {
    /// A fresh app: both panels at the start directory with its raw listing,
    /// the left one active, no search, no popup, nothing in flight.
    pub fn new(start_path: AbsPath, raw: Vec<Entry>) -> (r: App)
        ensures
            r@.cur_panel == ActivePanel::Left,
            r@.left_panel == PanelView::init(start_path@, views(raw@)),
            r@.right_panel == PanelView::init(start_path@, views(raw@)),
            r@.search_str == Seq::<u8>::empty(),
            r@.popup is None,
            r@.operations.pending == Seq::<PendingView>::empty(),
            r@.operations.next_handle == 0,
            r@.inv(),
    {
        let left_raw = clone_entries(&raw);
        let left_path = start_path.clone();
        let r = App {
            cur_panel: ActivePanel::Left,
            left_panel: Panel::new(left_path, left_raw),
            right_panel: Panel::new(start_path, raw),
            search_str: Vec::new(),
            popup: None,
            operations: Executor::new(),
        };
        assert(r@.search_str =~= Seq::<u8>::empty());
        r
    }

    /// Whether a popup is open.
    pub fn is_popup(&self) -> (r: bool)
        ensures
            r == (self@.popup is Some),
    {
        self.popup.is_some()
    }

    /// The panel the commands act on.
    fn active_panel(&self) -> (r: &Panel)
        ensures
            r@ == self@.active(),
    {
        match self.cur_panel {
            ActivePanel::Left => &self.left_panel,
            ActivePanel::Right => &self.right_panel,
        }
    }

    /// The panel whose directory receives copies and moves.
    fn other_panel(&self) -> (r: &Panel)
        ensures
            r@ == self@.other(),
    {
        match self.cur_panel {
            ActivePanel::Left => &self.right_panel,
            ActivePanel::Right => &self.left_panel,
        }
    }

    /// The active panel's current directory.
    pub fn active_path(&self) -> (r: AbsPath)
        ensures
            r@ == self@.active().path,
    {
        self.active_panel().get_path()
    }

    /// The directory a descent would enter: the selected entry of the active
    /// panel, if it is a directory and no popup blocks navigation.
    pub fn descend_target(&self) -> (r: Option<AbsPath>)
        requires
            self@.inv(),
        ensures
            match r {
                Some(p) => !self@.blocked() && (self@.active().selected matches Some(i)
                    && self@.active().entries[i as int].kind is Directory && p@
                    == self@.active().path.push(self@.active().entries[i as int].name)),
                None => self@.blocked() || !(self@.active().selected matches Some(i)
                    && self@.active().entries[i as int].kind is Directory),
            },
    {
        if self.popup.is_some() {
            return None;
        }
        let panel = self.active_panel();
        match panel.descend_target() {
            None => None,
            Some(name) => Some(panel.get_path().child(bytes_clone(name))),
        }
    }

    /// The directory an ascent would enter: the parent of the active panel's
    /// directory, if it has one and no popup blocks navigation.
    pub fn ascend_target(&self) -> (r: Option<AbsPath>)
        requires
            self@.inv(),
        ensures
            match r {
                Some(p) => !self@.blocked() && self@.active().path.len() > 0 && p@
                    == self@.active().path.drop_last(),
                None => self@.blocked() || self@.active().path.len() == 0,
            },
    {
        if self.popup.is_some() {
            return None;
        }
        self.active_panel().get_path().parent()
    }

    /// Descends into the selected directory of the active panel, with the
    /// raw listing of that directory, and clears the search.
    pub fn open_dir(&mut self, raw: Vec<Entry>)
        requires
            old(self)@.inv(),
            !old(self)@.blocked(),
            old(self)@.active().selected matches Some(i) && old(self)@.active().entries[i as int]
                .kind is Directory,
        ensures
            final(self)@ == old(self)@.with_active(
                old(self)@.active().descend(views(raw@)),
            ).with_search_cleared(),
            final(self)@.inv(),
    {
        match self.cur_panel {
            ActivePanel::Left => self.left_panel.open_dir(raw),
            ActivePanel::Right => self.right_panel.open_dir(raw),
        }
        self.search_str = Vec::new();
        assert(self@ =~= old(self)@.with_active(
            old(self)@.active().descend(views(raw@)),
        ).with_search_cleared());
    }

    /// Ascends to the parent directory of the active panel, with the raw
    /// listing of that parent, and clears the search.
    pub fn leave_dir(&mut self, raw: Vec<Entry>)
        requires
            old(self)@.inv(),
            !old(self)@.blocked(),
            old(self)@.active().path.len() > 0,
        ensures
            final(self)@ == old(self)@.with_active(
                old(self)@.active().ascend(views(raw@)),
            ).with_search_cleared(),
            final(self)@.inv(),
    {
        match self.cur_panel {
            ActivePanel::Left => self.left_panel.leave_dir(raw),
            ActivePanel::Right => self.right_panel.leave_dir(raw),
        }
        self.search_str = Vec::new();
        assert(self@ =~= old(self)@.with_active(
            old(self)@.active().ascend(views(raw@)),
        ).with_search_cleared());
    }

    /// Moves the cursor one entry down; blocked while a popup is open.
    pub fn next(&mut self)
        requires
            old(self)@.inv(),
        ensures
            old(self)@.blocked() ==> final(self)@ == old(self)@,
            !old(self)@.blocked() ==> final(self)@ == old(self)@.with_active(
                old(self)@.active().move_next(),
            ),
            final(self)@.inv(),
    {
        if self.popup.is_some() {
            return ;
        }
        match self.cur_panel {
            ActivePanel::Left => self.left_panel.next(),
            ActivePanel::Right => self.right_panel.next(),
        }
        assert(self@ =~= old(self)@.with_active(old(self)@.active().move_next()));
    }

    /// Moves the cursor one entry up; blocked while a popup is open.
    pub fn previous(&mut self)
        requires
            old(self)@.inv(),
        ensures
            old(self)@.blocked() ==> final(self)@ == old(self)@,
            !old(self)@.blocked() ==> final(self)@ == old(self)@.with_active(
                old(self)@.active().move_previous(),
            ),
            final(self)@.inv(),
    {
        if self.popup.is_some() {
            return ;
        }
        match self.cur_panel {
            ActivePanel::Left => self.left_panel.previous(),
            ActivePanel::Right => self.right_panel.previous(),
        }
        assert(self@ =~= old(self)@.with_active(old(self)@.active().move_previous()));
    }

    /// Jumps to the first entry; blocked while a popup is open.
    pub fn begin(&mut self)
        requires
            old(self)@.inv(),
        ensures
            old(self)@.blocked() ==> final(self)@ == old(self)@,
            !old(self)@.blocked() ==> final(self)@ == old(self)@.with_active(
                old(self)@.active().move_to_start(),
            ),
            final(self)@.inv(),
    {
        if self.popup.is_some() {
            return ;
        }
        match self.cur_panel {
            ActivePanel::Left => self.left_panel.begin(),
            ActivePanel::Right => self.right_panel.begin(),
        }
        assert(self@ =~= old(self)@.with_active(old(self)@.active().move_to_start()));
    }

    /// Jumps to the last entry; blocked while a popup is open.
    pub fn end(&mut self)
        requires
            old(self)@.inv(),
        ensures
            old(self)@.blocked() ==> final(self)@ == old(self)@,
            !old(self)@.blocked() ==> final(self)@ == old(self)@.with_active(
                old(self)@.active().move_to_end(),
            ),
            final(self)@.inv(),
    {
        if self.popup.is_some() {
            return ;
        }
        match self.cur_panel {
            ActivePanel::Left => self.left_panel.end(),
            ActivePanel::Right => self.right_panel.end(),
        }
        assert(self@ =~= old(self)@.with_active(old(self)@.active().move_to_end()));
    }

    /// Makes the other panel the active one and clears the search; blocked
    /// while a popup is open.
    pub fn switch_active_panel(&mut self)
        requires
            old(self)@.inv(),
        ensures
            old(self)@.blocked() ==> final(self)@ == old(self)@,
            !old(self)@.blocked() ==> final(self)@ == (AppView {
                cur_panel: flipped(old(self)@.cur_panel),
                search_str: Seq::empty(),
                ..old(self)@
            }),
            final(self)@.inv(),
    {
        if self.popup.is_some() {
            return ;
        }
        self.cur_panel = match self.cur_panel {
            ActivePanel::Left => ActivePanel::Right,
            ActivePanel::Right => ActivePanel::Left,
        };
        self.search_str = Vec::new();
        assert(self@ =~= (AppView {
            cur_panel: flipped(old(self)@.cur_panel),
            search_str: Seq::empty(),
            ..old(self)@
        }));
    }

    /// Appends one character to the search and selects the first entry of
    /// the active panel whose name contains the grown search string; blocked
    /// while a popup is open.
    pub fn jump_to_first_matching(&mut self, c: u8)
        requires
            old(self)@.inv(),
        ensures
            old(self)@.blocked() ==> final(self)@ == old(self)@,
            !old(self)@.blocked() ==> final(self)@ == (AppView {
                search_str: old(self)@.search_str.push(c),
                ..old(self)@.with_active(
                    old(self)@.active().search_jump(old(self)@.search_str.push(c)),
                )
            }),
            final(self)@.inv(),
    {
        if self.popup.is_some() {
            return ;
        }
        self.search_str.push(c);
        match self.cur_panel {
            ActivePanel::Left => self.left_panel.jump_to_first_matching(&self.search_str),
            ActivePanel::Right => self.right_panel.jump_to_first_matching(&self.search_str),
        }
        assert(self@ =~= (AppView {
            search_str: old(self)@.search_str.push(c),
            ..old(self)@.with_active(
                old(self)@.active().search_jump(old(self)@.search_str.push(c)),
            )
        }));
    }

    /// Empties the search; blocked while a popup is open.
    pub fn clear_search_str(&mut self)
        requires
            old(self)@.inv(),
        ensures
            old(self)@.blocked() ==> final(self)@ == old(self)@,
            !old(self)@.blocked() ==> final(self)@ == old(self)@.with_search_cleared(),
            final(self)@.inv(),
    {
        if self.popup.is_some() {
            return ;
        }
        self.search_str = Vec::new();
        assert(self@ =~= old(self)@.with_search_cleared());
    }

    /// Drops the last character of the search; blocked while a popup is
    /// open.
    pub fn pop_char_from_search_str(&mut self)
        requires
            old(self)@.inv(),
        ensures
            old(self)@.blocked() ==> final(self)@ == old(self)@,
            !old(self)@.blocked() ==> final(self)@ == (AppView {
                search_str: if old(self)@.search_str.len() > 0 {
                    old(self)@.search_str.drop_last()
                } else {
                    old(self)@.search_str
                },
                ..old(self)@
            }),
            final(self)@.inv(),
    {
        if self.popup.is_some() {
            return ;
        }
        self.search_str.pop();
        assert(self@ =~= (AppView {
            search_str: if old(self)@.search_str.len() > 0 {
                old(self)@.search_str.drop_last()
            } else {
                old(self)@.search_str
            },
            ..old(self)@
        }));
    }

    /// Opens the help popup with the static command reference.
    pub fn open_help_popup(&mut self)
        requires
            old(self)@.inv(),
        ensures
            final(self)@ == (AppView {
                popup: Some(PopupView { title: help_title(), text: help_body(), emphasis: false }),
                ..old(self)@
            }),
            final(self)@.inv(),
    {
        self.popup = Some(
            Popup::new(
                "Help",
                "F1 - Show this help\nF2 - Copy\nF3 - Move\nF5 - Refresh\nF12 - Terminate sfmanager\nArrow up - Go one entry up\nArrow down - Go one entry down\nHome - Go to the first entry\nEnd - Go to the last entry\nArrow right - Enter folder\nEnter - Enter folder\nArrow left - Leave folder\nBackspace - Delete last char from search string\nTab - Switch current panel\nDelete - Delete\nEsc - Clear search string\n",
                false,
            ),
        );
        assert(self@ =~= (AppView {
            popup: Some(PopupView { title: help_title(), text: help_body(), emphasis: false }),
            ..old(self)@
        }));
    }

    /// Closes the popup, whatever it showed.
    pub fn close_popup(&mut self)
        requires
            old(self)@.inv(),
        ensures
            final(self)@ == (AppView { popup: None, ..old(self)@ }),
            final(self)@.inv(),
    {
        self.popup = None;
        assert(self@ =~= (AppView { popup: None, ..old(self)@ }));
    }

    /// The source and destination of a copy or move of the current
    /// selection: the selected entry's path, and the same name under the
    /// other panel's directory. Nothing when nothing is selected.
    fn get_copy_move_path(&self) -> (r: Option<(AbsPath, AbsPath)>)
        requires
            self@.inv(),
        ensures
            match r {
                Some(sd) => self@.active().selected matches Some(i) && sd.0@
                    == self@.active().path.push(self@.active().entries[i as int].name) && sd.1@
                    == self@.other().path.push(self@.active().entries[i as int].name),
                None => self@.active().selected is None,
            },
    {
        let panel = self.active_panel();
        match panel.selected {
            None => None,
            Some(i) => {
                let name = bytes_clone(&panel.entries[i].name);
                let src = panel.get_path().child(bytes_clone(&name));
                let dest = self.other_panel().get_path().child(name);
                Some((src, dest))
            },
        }
    }

    /// Submits a copy of the current selection into the other panel's
    /// directory; with nothing selected, nothing happens. The returned
    /// pending operation is what the world must now carry out.
    pub fn copy_objects(&mut self) -> (r: Option<PendingOp>)
        requires
            old(self)@.inv(),
            old(self)@.operations.next_handle < u64::MAX,
        ensures
            final(self)@.inv(),
            match r {
                Some(p) => old(self)@.active().selected matches Some(i) && p.op@ == (OperationView {
                    kind: OpKind::Copy,
                    source: old(self)@.active().path.push(
                        old(self)@.active().entries[i as int].name,
                    ),
                    destination: old(self)@.other().path.push(
                        old(self)@.active().entries[i as int].name,
                    ),
                }) && p.handle == old(self)@.operations.next_handle && final(self)@ == (AppView {
                    operations: ExecutorView {
                        next_handle: (old(self)@.operations.next_handle + 1) as u64,
                        pending: old(self)@.operations.pending.push(p@),
                    },
                    ..old(self)@
                }),
                None => old(self)@.active().selected is None && final(self)@ == old(self)@,
            },
    {
        self.submit_transfer(OpKind::Copy)
    }

    /// Submits a move of the current selection into the other panel's
    /// directory; with nothing selected, nothing happens. The returned
    /// pending operation is what the world must now carry out.
    pub fn move_objects(&mut self) -> (r: Option<PendingOp>)
        requires
            old(self)@.inv(),
            old(self)@.operations.next_handle < u64::MAX,
        ensures
            final(self)@.inv(),
            match r {
                Some(p) => old(self)@.active().selected matches Some(i) && p.op@ == (OperationView {
                    kind: OpKind::Move,
                    source: old(self)@.active().path.push(
                        old(self)@.active().entries[i as int].name,
                    ),
                    destination: old(self)@.other().path.push(
                        old(self)@.active().entries[i as int].name,
                    ),
                }) && p.handle == old(self)@.operations.next_handle && final(self)@ == (AppView {
                    operations: ExecutorView {
                        next_handle: (old(self)@.operations.next_handle + 1) as u64,
                        pending: old(self)@.operations.pending.push(p@),
                    },
                    ..old(self)@
                }),
                None => old(self)@.active().selected is None && final(self)@ == old(self)@,
            },
    {
        self.submit_transfer(OpKind::Move)
    }

    /// Builds and submits the transfer of the current selection.
    fn submit_transfer(&mut self, kind: OpKind) -> (r: Option<PendingOp>)
        requires
            old(self)@.inv(),
            old(self)@.operations.next_handle < u64::MAX,
        ensures
            final(self)@.inv(),
            match r {
                Some(p) => old(self)@.active().selected matches Some(i) && p.op@ == (OperationView {
                    kind,
                    source: old(self)@.active().path.push(
                        old(self)@.active().entries[i as int].name,
                    ),
                    destination: old(self)@.other().path.push(
                        old(self)@.active().entries[i as int].name,
                    ),
                }) && p.handle == old(self)@.operations.next_handle && final(self)@ == (AppView {
                    operations: ExecutorView {
                        next_handle: (old(self)@.operations.next_handle + 1) as u64,
                        pending: old(self)@.operations.pending.push(p@),
                    },
                    ..old(self)@
                }),
                None => old(self)@.active().selected is None && final(self)@ == old(self)@,
            },
    {
        let sd = match self.get_copy_move_path() {
            None => {
                return None;
            },
            Some(sd) => sd,
        };
        let op = Operation { kind, source: sd.0, destination: sd.1 };
        let submitted = op.clone();
        let handle = self.operations.submit(submitted);
        let r = PendingOp { handle, op };
        assert(r@ == (PendingView { handle, op: r.op@ }));
        assert(self@ =~= (AppView {
            operations: ExecutorView {
                next_handle: (old(self)@.operations.next_handle + 1) as u64,
                pending: old(self)@.operations.pending.push(r@),
            },
            ..old(self)@
        }));
        Some(r)
    }

    /// Re-lists both panels in place with their raw listings.
    pub fn refresh(&mut self, left_raw: Vec<Entry>, right_raw: Vec<Entry>)
        requires
            old(self)@.inv(),
        ensures
            final(self)@ == (AppView {
                left_panel: old(self)@.left_panel.refreshed(views(left_raw@)),
                right_panel: old(self)@.right_panel.refreshed(views(right_raw@)),
                ..old(self)@
            }),
            final(self)@.inv(),
    {
        self.left_panel.update_items(left_raw);
        self.right_panel.update_items(right_raw);
        assert(self@ =~= (AppView {
            left_panel: old(self)@.left_panel.refreshed(views(left_raw@)),
            right_panel: old(self)@.right_panel.refreshed(views(right_raw@)),
            ..old(self)@
        }));
    }

    /// The path a delete would send to the trash: the active panel's current
    /// selection; nothing when nothing is selected.
    pub fn delete_target(&self) -> (r: Option<AbsPath>)
        requires
            self@.inv(),
        ensures
            match r {
                Some(p) => self@.active().selected matches Some(i) && p@
                    == self@.active().path.push(self@.active().entries[i as int].name),
                None => self@.active().selected is None,
            },
    {
        let panel = self.active_panel();
        match panel.selected {
            None => None,
            Some(_) => Some(panel.get_cur_obj()),
        }
    }

    /// Takes the outcome of deleting the current selection: on failure a
    /// popup opens with the reason; either way the active panel is re-listed
    /// with the given raw entries.
    pub fn delete_objects(&mut self, outcome: OpOutcome, raw: Vec<Entry>)
        requires
            old(self)@.inv(),
        ensures
            final(self)@ == (AppView {
                popup: match outcome@ {
                    OpOutcomeView::Failed(reason) => Some(delete_error_popup(reason)),
                    OpOutcomeView::Succeeded => old(self)@.popup,
                },
                ..old(self)@.with_active(old(self)@.active().refreshed(views(raw@)))
            }),
            final(self)@.inv(),
    {
        match self.cur_panel {
            ActivePanel::Left => self.left_panel.update_items(raw),
            ActivePanel::Right => self.right_panel.update_items(raw),
        }
        match outcome {
            OpOutcome::Failed(reason) => {
                self.popup = Some(Popup::new("Error", reason.as_str(), false));
            },
            OpOutcome::Succeeded => {},
        }
        assert(self@ =~= (AppView {
            popup: match outcome@ {
                OpOutcomeView::Failed(reason) => Some(delete_error_popup(reason)),
                OpOutcomeView::Succeeded => old(self)@.popup,
            },
            ..old(self)@.with_active(old(self)@.active().refreshed(views(raw@)))
        }));
    }

    /// Takes the results of the operations that finished since the last
    /// cycle: every reported handle leaves the pending set exactly once; the
    /// first failure, if any, opens an error popup and later ones in the
    /// batch are dropped; then both panels are re-listed with their raw
    /// listings.
    pub fn thread_ctrl(
        &mut self,
        results: Vec<(u64, OpOutcome)>,
        left_raw: Vec<Entry>,
        right_raw: Vec<Entry>,
    )
        requires
            old(self)@.inv(),
        ensures
            final(self)@ == (AppView {
                left_panel: old(self)@.left_panel.refreshed(views(left_raw@)),
                right_panel: old(self)@.right_panel.refreshed(views(right_raw@)),
                popup: match first_failure(result_views(results@)) {
                    Some(reason) => Some(error_popup(reason)),
                    None => old(self)@.popup,
                },
                operations: ExecutorView {
                    next_handle: old(self)@.operations.next_handle,
                    pending: remove_handles(
                        old(self)@.operations.pending,
                        result_views(results@),
                    ),
                },
                ..old(self)@
            }),
            final(self)@.inv(),
    {
        let ghost rv = result_views(results@);
        let n = results.len();
        let mut i: usize = 0;
        let mut reported: bool = false;
        proof {
            assert(rv.skip(0) =~= rv);
        }
        while i < n
            invariant
                n == results@.len(),
                i <= n,
                rv == result_views(results@),
                self.cur_panel == old(self).cur_panel,
                self.left_panel == old(self).left_panel,
                self.right_panel == old(self).right_panel,
                self.search_str == old(self).search_str,
                self@.operations.inv(),
                self@.operations.next_handle == old(self)@.operations.next_handle,
                remove_handles(old(self)@.operations.pending, rv) == remove_handles(
                    self@.operations.pending,
                    rv.skip(i as int),
                ),
                !reported ==> self@.popup == old(self)@.popup && first_failure(rv)
                    == first_failure(rv.skip(i as int)),
                reported ==> (first_failure(rv) matches Some(reason) && self@.popup == Some(
                    error_popup(reason),
                )),
            decreases n - i,
        {
            let ghost rest = rv.skip(i as int);
            proof {
                assert(rest[0] == rv[i as int]);
                assert(rest.skip(1) =~= rv.skip(i + 1));
            }
            let handle = results[i].0;
            self.operations.remove(handle);
            if !reported {
                match &results[i].1 {
                    OpOutcome::Failed(reason) => {
                        self.popup = Some(Popup::new("Error", reason.as_str(), true));
                        reported = true;
                    },
                    OpOutcome::Succeeded => {},
                }
            }
            i = i + 1;
        }
        proof {
            assert(rv.skip(n as int) =~= Seq::<(u64, OpOutcomeView)>::empty());
        }
        self.left_panel.update_items(left_raw);
        self.right_panel.update_items(right_raw);
        assert(self@ =~= (AppView {
            left_panel: old(self)@.left_panel.refreshed(views(left_raw@)),
            right_panel: old(self)@.right_panel.refreshed(views(right_raw@)),
            popup: match first_failure(result_views(results@)) {
                Some(reason) => Some(error_popup(reason)),
                None => old(self)@.popup,
            },
            operations: ExecutorView {
                next_handle: old(self)@.operations.next_handle,
                pending: remove_handles(old(self)@.operations.pending, result_views(results@)),
            },
            ..old(self)@
        }));
    }
}

/// The help popup's title.
pub open spec fn help_title() -> Seq<char> {
    "Help"@
}

/// The help popup's body: the static command reference.
pub open spec fn help_body() -> Seq<char> {
    "F1 - Show this help\nF2 - Copy\nF3 - Move\nF5 - Refresh\nF12 - Terminate sfmanager\nArrow up - Go one entry up\nArrow down - Go one entry down\nHome - Go to the first entry\nEnd - Go to the last entry\nArrow right - Enter folder\nEnter - Enter folder\nArrow left - Leave folder\nBackspace - Delete last char from search string\nTab - Switch current panel\nDelete - Delete\nEsc - Clear search string\n"@
}

} // verus!
