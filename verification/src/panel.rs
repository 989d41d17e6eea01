//! One side's directory-navigation state machine: the current directory, its
//! sorted listing, the selection cursor, and the stack of selections taken on
//! descents. Every operation keeps the selection invariant: no selection
//! exactly when the listing is empty, otherwise a valid index.
//!
//! Reading a directory is input the library does not perform; the operations
//! that re-list (`new`, `open_dir`, `leave_dir`, `update_items`) take the raw
//! entries as an argument and sort them here.

use vstd::prelude::*;

use crate::bytes::bytes_clone;
use crate::bytes::bytes_contains;
use crate::bytes::contains_bytes;
use crate::entry::Entry;
use crate::entry::EntryView;
use crate::fspath::AbsPath;
use crate::listing::sort_entries;
use crate::listing::sort_spec;
use crate::listing::views;

verus! {

/// Mathematical image of a panel.
#[verifier::ext_equal]
pub ghost struct PanelView {
    pub path: Seq<Seq<u8>>,
    pub entries: Seq<EntryView>,
    pub selected: Option<usize>,
    pub history: Seq<usize>,
}

/// The selection a fresh listing starts with: its first entry, or nothing
/// when it is empty.
pub open spec fn select_first(entries: Seq<EntryView>) -> Option<usize> {
    if entries.len() == 0 {
        None
    } else {
        Some(0usize)
    }
}

/// A selection clamped to a listing of the given length: nothing on an empty
/// listing, an out-of-range or missing cursor moved to the nearest valid
/// index.
pub open spec fn clamp_selection(sel: Option<usize>, len: int) -> Option<usize> {
    if len == 0 {
        None
    } else {
        match sel {
            None => Some(0usize),
            Some(i) => if i < len {
                Some(i)
            } else {
                Some((len - 1) as usize)
            },
        }
    }
}

/// The position of the first entry at or after `i` whose name contains `q`.
pub open spec fn first_match_from(entries: Seq<EntryView>, q: Seq<u8>, i: int) -> Option<int>
    decreases entries.len() - i,
{
    if i < 0 || i >= entries.len() {
        None
    } else if contains_bytes(entries[i].name, q) {
        Some(i)
    } else {
        first_match_from(entries, q, i + 1)
    }
}

/// The position of the first entry in listing order whose name contains `q`.
pub open spec fn first_match(entries: Seq<EntryView>, q: Seq<u8>) -> Option<int> {
    first_match_from(entries, q, 0)
}

impl PanelView {
    /// The panel invariant: the selection is absent exactly on an empty
    /// listing and otherwise in range, and the listing is in listing order.
    pub open spec fn inv(self) -> bool {
        &&& (self.selected is None <==> self.entries.len() == 0)
        &&& (self.selected matches Some(i) ==> (i as int) < self.entries.len())
        &&& crate::listing::sorted_listing(self.entries)
    }

    /// A fresh panel at the given directory with the given raw listing.
    pub open spec fn init(path: Seq<Seq<u8>>, raw: Seq<EntryView>) -> PanelView {
        let entries = sort_spec(raw);
        PanelView { path, entries, selected: select_first(entries), history: Seq::empty() }
    }

    /// Descending into the selected directory: the path grows by its name,
    /// the listing is replaced by the subdirectory's, the selection restarts
    /// at the top, and the old selection is pushed for the later ascent.
    pub open spec fn descend(self, raw: Seq<EntryView>) -> PanelView
        recommends
            self.selected is Some,
    {
        let entries = sort_spec(raw);
        PanelView {
            path: self.path.push(self.entries[self.selected->0 as int].name),
            entries,
            selected: select_first(entries),
            history: self.history.push(self.selected->0),
        }
    }

    /// Ascending to the parent directory: the path shrinks by one component,
    /// the listing is replaced by the parent's, and the selection taken
    /// before the matching descent is restored (clamped to the new length),
    /// or restarts at the top when the panel never descended.
    pub open spec fn ascend(self, raw: Seq<EntryView>) -> PanelView
        recommends
            self.path.len() > 0,
    {
        let entries = sort_spec(raw);
        let selected = if self.history.len() > 0 {
            clamp_selection(Some(self.history.last()), entries.len() as int)
        } else {
            clamp_selection(None, entries.len() as int)
        };
        let history = if self.history.len() > 0 {
            self.history.drop_last()
        } else {
            self.history
        };
        PanelView { path: self.path.drop_last(), entries, selected, history }
    }

    /// Re-listing the current directory in place: the selection index is
    /// kept, only clamped to the new length.
    pub open spec fn refreshed(self, raw: Seq<EntryView>) -> PanelView {
        let entries = sort_spec(raw);
        PanelView {
            path: self.path,
            entries,
            selected: clamp_selection(self.selected, entries.len() as int),
            history: self.history,
        }
    }

    /// Moving the cursor one entry down, stopping at the last index.
    pub open spec fn move_next(self) -> PanelView {
        let selected = match self.selected {
            None => None,
            Some(i) => if i + 1 < self.entries.len() {
                Some((i + 1) as usize)
            } else {
                Some(i)
            },
        };
        PanelView { selected, ..self }
    }

    /// Moving the cursor one entry up, stopping at the first index.
    pub open spec fn move_previous(self) -> PanelView {
        let selected = match self.selected {
            None => None,
            Some(i) => if i == 0 {
                Some(i)
            } else {
                Some((i - 1) as usize)
            },
        };
        PanelView { selected, ..self }
    }

    /// Jumping to the first entry.
    pub open spec fn move_to_start(self) -> PanelView {
        PanelView { selected: select_first(self.entries), ..self }
    }

    /// Jumping to the last entry.
    pub open spec fn move_to_end(self) -> PanelView {
        let selected = if self.entries.len() == 0 {
            None
        } else {
            Some((self.entries.len() - 1) as usize)
        };
        PanelView { selected, ..self }
    }

    /// Selecting the first entry whose name contains `q`; with no match the
    /// selection stays where it was.
    pub open spec fn search_jump(self, q: Seq<u8>) -> PanelView {
        let selected = match first_match(self.entries, q) {
            Some(i) => Some(i as usize),
            None => self.selected,
        };
        PanelView { selected, ..self }
    }
}

/// One side of the file manager.
pub struct Panel {
    pub path: AbsPath,
    pub entries: Vec<Entry>,
    pub selected: Option<usize>,
    pub history: Vec<usize>,
}

impl View for Panel {
    type V = PanelView;

    open spec fn view(&self) -> PanelView {
        PanelView {
            path: self.path@,
            entries: views(self.entries@),
            selected: self.selected,
            history: self.history@,
        }
    }
}

impl Panel {
    /// A fresh panel at the given directory with the given raw listing.
    pub fn new(path: AbsPath, raw: Vec<Entry>) -> (r: Panel)
        ensures
            r@ == PanelView::init(path@, views(raw@)),
            r@.inv(),
    {
        let ghost rv = views(raw@);
        let entries = sort_entries(raw);
        let selected: Option<usize> = if entries.len() == 0 {
            None
        } else {
            Some(0)
        };
        let r = Panel { path, entries, selected, history: Vec::new() };
        assert(r@ =~= PanelView::init(r.path@, rv));
        r
    }

    /// The full path of the selected entry; the empty path when the listing
    /// is empty and nothing is selected.
    pub fn get_cur_obj(&self) -> (r: AbsPath)
        requires
            self@.inv(),
        ensures
            self@.selected is None ==> r@ == Seq::<Seq<u8>>::empty(),
            self@.selected matches Some(i) ==> r@ == self@.path.push(
                self@.entries[i as int].name,
            ),
    {
        match self.selected {
            None => AbsPath::empty(),
            Some(i) => self.path.child(bytes_clone(&self.entries[i].name)),
        }
    }

    /// The panel's current directory.
    pub fn get_path(&self) -> (r: AbsPath)
        ensures
            r@ == self@.path,
    {
        self.path.clone()
    }

    /// The name of the selected entry if it is a directory — the target a
    /// descent would enter — and nothing otherwise.
    pub fn descend_target(&self) -> (r: Option<&Vec<u8>>)
        requires
            self@.inv(),
        ensures
            match r {
                Some(name) => self@.selected matches Some(i)
                    && self@.entries[i as int].kind is Directory
                    && name@ == self@.entries[i as int].name,
                None => !(self@.selected matches Some(i)
                    && self@.entries[i as int].kind is Directory),
            },
    {
        match self.selected {
            None => None,
            Some(i) => {
                if self.entries[i].is_dir() {
                    Some(&self.entries[i].name)
                } else {
                    None
                }
            },
        }
    }

    /// Enters the selected directory, replacing the listing by the raw
    /// entries of that subdirectory.
    pub fn open_dir(&mut self, raw: Vec<Entry>)
        requires
            old(self)@.inv(),
            old(self)@.selected matches Some(i) && old(self)@.entries[i as int].kind
                is Directory,
        ensures
            final(self)@ == old(self)@.descend(views(raw@)),
            final(self)@.inv(),
    {
        let ghost rv = views(raw@);
        let i = self.selected.unwrap();
        let name = bytes_clone(&self.entries[i].name);
        self.path.push(name);
        self.entries = sort_entries(raw);
        self.history.push(i);
        self.selected = if self.entries.len() == 0 {
            None
        } else {
            Some(0)
        };
        assert(self@ =~= old(self)@.descend(rv));
    }

    /// Leaves the current directory for its parent, replacing the listing by
    /// the raw entries of the parent directory.
    pub fn leave_dir(&mut self, raw: Vec<Entry>)
        requires
            old(self)@.inv(),
            old(self)@.path.len() > 0,
        ensures
            final(self)@ == old(self)@.ascend(views(raw@)),
            final(self)@.inv(),
    {
        let ghost rv = views(raw@);
        self.path.pop();
        self.entries = sort_entries(raw);
        let popped = self.history.pop();
        let len = self.entries.len();
        self.selected = if len == 0 {
            None
        } else {
            match popped {
                Some(x) => if x < len {
                    Some(x)
                } else {
                    Some(len - 1)
                },
                None => Some(0),
            }
        };
        assert(self@ =~= old(self)@.ascend(rv));
    }

    /// Re-lists the current directory in place.
    pub fn update_items(&mut self, raw: Vec<Entry>)
        requires
            old(self)@.inv(),
        ensures
            final(self)@ == old(self)@.refreshed(views(raw@)),
            final(self)@.inv(),
    {
        let ghost rv = views(raw@);
        self.entries = sort_entries(raw);
        let len = self.entries.len();
        self.selected = if len == 0 {
            None
        } else {
            match self.selected {
                None => Some(0),
                Some(i) => if i < len {
                    Some(i)
                } else {
                    Some(len - 1)
                },
            }
        };
        assert(self@ =~= old(self)@.refreshed(rv));
    }

    /// Moves the cursor one entry down; at the last entry nothing moves.
    pub fn next(&mut self)
        requires
            old(self)@.inv(),
        ensures
            final(self)@ == old(self)@.move_next(),
            final(self)@.inv(),
    {
        let n = self.entries.len();
        match self.selected {
            Some(i) => {
                if i + 1 < n {
                    self.selected = Some(i + 1);
                }
            },
            None => {},
        }
        assert(self@ =~= old(self)@.move_next());
    }

    /// Moves the cursor one entry up; at the first entry nothing moves.
    pub fn previous(&mut self)
        requires
            old(self)@.inv(),
        ensures
            final(self)@ == old(self)@.move_previous(),
            final(self)@.inv(),
    {
        match self.selected {
            Some(i) => {
                if i > 0 {
                    self.selected = Some(i - 1);
                }
            },
            None => {},
        }
        assert(self@ =~= old(self)@.move_previous());
    }

    /// Jumps to the first entry.
    pub fn begin(&mut self)
        requires
            old(self)@.inv(),
        ensures
            final(self)@ == old(self)@.move_to_start(),
            final(self)@.inv(),
    {
        if self.entries.len() == 0 {
            self.selected = None;
        } else {
            self.selected = Some(0);
        }
        assert(self@ =~= old(self)@.move_to_start());
    }

    /// Jumps to the last entry.
    pub fn end(&mut self)
        requires
            old(self)@.inv(),
        ensures
            final(self)@ == old(self)@.move_to_end(),
            final(self)@.inv(),
    {
        let n = self.entries.len();
        if n == 0 {
            self.selected = None;
        } else {
            self.selected = Some(n - 1);
        }
        assert(self@ =~= old(self)@.move_to_end());
    }

    /// Selects the first entry whose name contains the search string; with
    /// no match the selection stays where it was.
    pub fn jump_to_first_matching(&mut self, search: &Vec<u8>)
        requires
            old(self)@.inv(),
        ensures
            final(self)@ == old(self)@.search_jump(search@),
            final(self)@.inv(),
    {
        let n = self.entries.len();
        let mut i: usize = 0;
        while i < n
            invariant
                old(self)@.inv(),
                n == self.entries@.len(),
                i <= n,
                *self == *old(self),
                first_match(views(self.entries@), search@) == first_match_from(
                    views(self.entries@),
                    search@,
                    i as int,
                ),
            decreases n - i,
        {
            if bytes_contains(&self.entries[i].name, search) {
                self.selected = Some(i);
                assert(self@ =~= old(self)@.search_jump(search@));
                return;
            }
            i = i + 1;
        }
        assert(self@ =~= old(self)@.search_jump(search@));
    }
}

/// Descending and then ascending brings the panel back to its directory and
/// to the exact selection that was active before the descent, whatever
/// listings the two moves saw — as long as the re-listed outer directory is
/// still long enough to hold that selection.
pub proof fn lemma_descend_then_ascend_restores(
    p: PanelView,
    inner: Seq<EntryView>,
    outer: Seq<EntryView>,
)
    requires
        p.inv(),
        p.selected matches Some(i) && (i as int) < sort_spec(outer).len(),
    ensures
        p.descend(inner).ascend(outer).selected == p.selected,
        p.descend(inner).ascend(outer).path == p.path,
        p.descend(inner).ascend(outer).history == p.history,
{
    let d = p.descend(inner);
    let a = d.ascend(outer);
    assert(d.history.last() == p.selected->0);
    assert(a.path =~= p.path);
    assert(a.history =~= p.history);
}

/// Moving down at the last entry changes nothing.
pub proof fn lemma_next_at_end_noop(p: PanelView)
    requires
        p.inv(),
        p.selected matches Some(i) && i + 1 == p.entries.len(),
    ensures
        p.move_next() == p,
{
    assert(p.move_next() =~= p);
}

/// Moving up at the first entry changes nothing.
pub proof fn lemma_previous_at_start_noop(p: PanelView)
    requires
        p.inv(),
        p.selected == Some(0usize),
    ensures
        p.move_previous() == p,
{
    assert(p.move_previous() =~= p);
}

/// What the first match is: a position whose entry contains the query while
/// every earlier entry does not, or no position at all when no entry
/// contains the query.
pub proof fn lemma_first_match_characterizes(entries: Seq<EntryView>, q: Seq<u8>)
    ensures
        match first_match(entries, q) {
            Some(i) => 0 <= i < entries.len() && contains_bytes(entries[i].name, q) && (forall|
                k: int,
            | 0 <= k < i ==> !contains_bytes(#[trigger] entries[k].name, q)),
            None => forall|k: int|
                0 <= k < entries.len() ==> !contains_bytes(#[trigger] entries[k].name, q),
        },
{
    lemma_first_match_from_characterizes(entries, q, 0);
}

proof fn lemma_first_match_from_characterizes(entries: Seq<EntryView>, q: Seq<u8>, i: int)
    requires
        0 <= i <= entries.len(),
    ensures
        match first_match_from(entries, q, i) {
            Some(j) => i <= j < entries.len() && contains_bytes(entries[j].name, q) && (forall|
                k: int,
            | i <= k < j ==> !contains_bytes(#[trigger] entries[k].name, q)),
            None => forall|k: int|
                i <= k < entries.len() ==> !contains_bytes(#[trigger] entries[k].name, q),
        },
    decreases entries.len() - i,
{
    if i < entries.len() && !contains_bytes(entries[i].name, q) {
        lemma_first_match_from_characterizes(entries, q, i + 1);
    }
}

} // verus!
