//! Background file operations: what a copy or move is, what it resolved to,
//! and the executor's bookkeeping of the operations still in flight. The
//! library owns the bookkeeping and the decisions; actually running an
//! operation against the filesystem is outside work, reported back as an
//! `OpOutcome`.

use vstd::prelude::*;

use crate::fspath::AbsPath;
use crate::seq_facts::lemma_filter_drops_one;
use crate::seq_facts::lemma_filter_keeps_all;

verus! {

/// What an operation does with its source.
#[derive(Clone, Copy, PartialEq, Eq, Structural, Debug)]
pub enum OpKind {
    Copy,
    Move,
}

/// A requested copy or move: the object to transfer and the full destination
/// path (destination directory plus the source's base name).
#[derive(Debug)]
pub struct Operation {
    pub kind: OpKind,
    pub source: AbsPath,
    pub destination: AbsPath,
}

/// Mathematical image of an operation.
#[verifier::ext_equal]
pub ghost struct OperationView {
    pub kind: OpKind,
    pub source: Seq<Seq<u8>>,
    pub destination: Seq<Seq<u8>>,
}

impl View for Operation {
    type V = OperationView;

    open spec fn view(&self) -> OperationView {
        OperationView { kind: self.kind, source: self.source@, destination: self.destination@ }
    }
}

impl Clone for Operation {
    /// The copy denotes the same operation.
    fn clone(&self) -> (r: Self)
        ensures
            r@ == self@,
    {
        let r = Operation {
            kind: self.kind,
            source: self.source.clone(),
            destination: self.destination.clone(),
        };
        assert(r@ =~= self@);
        r
    }
}

/// How a finished operation resolved: success, or failure with the reason.
#[derive(Debug)]
pub enum OpOutcome {
    Succeeded,
    Failed(String),
}

/// Mathematical image of an outcome.
#[verifier::ext_equal]
pub ghost enum OpOutcomeView {
    Succeeded,
    Failed(Seq<char>),
}

impl View for OpOutcome {
    type V = OpOutcomeView;

    open spec fn view(&self) -> OpOutcomeView {
        match self {
            OpOutcome::Succeeded => OpOutcomeView::Succeeded,
            OpOutcome::Failed(reason) => OpOutcomeView::Failed(reason@),
        }
    }
}

/// One operation still in flight, under the handle `submit` returned for it.
#[derive(Debug)]
pub struct PendingOp {
    pub handle: u64,
    pub op: Operation,
}

/// Mathematical image of a pending operation.
#[verifier::ext_equal]
pub ghost struct PendingView {
    pub handle: u64,
    pub op: OperationView,
}

impl View for PendingOp {
    type V = PendingView;

    open spec fn view(&self) -> PendingView {
        PendingView { handle: self.handle, op: self.op@ }
    }
}

/// The views of a sequence of pending operations.
pub open spec fn pending_views(s: Seq<PendingOp>) -> Seq<PendingView> {
    s.map_values(|p: PendingOp| p@)
}

/// Mathematical image of the executor's bookkeeping.
#[verifier::ext_equal]
pub ghost struct ExecutorView {
    pub next_handle: u64,
    pub pending: Seq<PendingView>,
}

impl ExecutorView {
    /// Every pending handle was handed out (is below the next one) and no
    /// handle is in flight twice.
    pub open spec fn inv(self) -> bool {
        &&& forall|k: int|
            0 <= k < self.pending.len() ==> (#[trigger] self.pending[k].handle)
                < self.next_handle
        &&& forall|j: int, k: int|
            #![trigger self.pending[j].handle, self.pending[k].handle]
            0 <= j < k < self.pending.len() ==> self.pending[j].handle != self.pending[k].handle
    }

    /// Pending operations left after a finished handle is reported: all but
    /// that handle, in order.
    pub open spec fn without(self, handle: u64) -> Seq<PendingView> {
        self.pending.filter(|p: PendingView| p.handle != handle)
    }
}

/// Bookkeeping of the operations in flight: each submission gets a fresh
/// handle; a finished operation leaves exactly once, when its handle is
/// reported back.
#[derive(Debug)]
pub struct Executor {
    pub next_handle: u64,
    pub pending: Vec<PendingOp>,
}

impl View for Executor {
    type V = ExecutorView;

    open spec fn view(&self) -> ExecutorView {
        ExecutorView { next_handle: self.next_handle, pending: pending_views(self.pending@) }
    }
}

impl Executor {
    /// An executor with nothing in flight.
    pub fn new() -> (r: Self)
        ensures
            r@.next_handle == 0,
            r@.pending == Seq::<PendingView>::empty(),
            r@.inv(),
    {
        let r = Executor { next_handle: 0, pending: Vec::new() };
        assert(r@.pending =~= Seq::<PendingView>::empty());
        r
    }

    /// How many operations are in flight.
    pub fn count(&self) -> (r: usize)
        ensures
            r == self@.pending.len(),
    {
        self.pending.len()
    }

    /// Accepts an operation and returns its fresh handle; the operation is
    /// pending until that handle is reported back through `remove`.
    pub fn submit(&mut self, op: Operation) -> (h: u64)
        requires
            old(self)@.inv(),
            old(self)@.next_handle < u64::MAX,
        ensures
            h == old(self)@.next_handle,
            final(self)@.next_handle == old(self)@.next_handle + 1,
            final(self)@.pending == old(self)@.pending.push(PendingView { handle: h, op: op@ }),
            final(self)@.inv(),
    {
        let h = self.next_handle;
        self.next_handle = self.next_handle + 1;
        let ghost opv = op@;
        self.pending.push(PendingOp { handle: h, op });
        assert(self@.pending =~= old(self)@.pending.push(PendingView { handle: h, op: opv }));
        h
    }

    /// Drops the pending operation with the given handle, if any, returning
    /// it; every other operation stays, in order.
    pub fn remove(&mut self, handle: u64) -> (r: Option<Operation>)
        requires
            old(self)@.inv(),
        ensures
            final(self)@.next_handle == old(self)@.next_handle,
            final(self)@.pending == old(self)@.without(handle),
            final(self)@.inv(),
            match r {
                Some(op) => exists|k: int|
                    0 <= k < old(self)@.pending.len() && old(self)@.pending[k] == (PendingView {
                        handle,
                        op: op@,
                    }),
                None => forall|k: int|
                    0 <= k < old(self)@.pending.len() ==> (#[trigger] old(
                        self,
                    )@.pending[k].handle) != handle,
            },
    {
        let ghost pvs = pending_views(self.pending@);
        let ghost pred = |p: PendingView| p.handle != handle;
        match self.find_handle(handle) {
            None => {
                proof {
                    lemma_filter_keeps_all(pvs, pred);
                }
                None
            },
            Some(j) => {
                let removed = self.pending.remove(j);
                proof {
                    assert forall|k: int| 0 <= k < pvs.len() && k != j implies pred(
                        #[trigger] pvs[k],
                    ) by {
                        if k > j {
                            assert(old(self)@.pending[j as int].handle != old(
                                self,
                            )@.pending[k].handle);
                        }
                    }
                    lemma_filter_drops_one(pvs, pred, j as int);
                    assert(pending_views(self.pending@) =~= pvs.take(j as int) + pvs.skip(
                        j + 1,
                    ));
                }
                Some(removed.op)
            },
        }
    }

    /// The position of the pending operation with the given handle, if any.
    fn find_handle(&self, handle: u64) -> (r: Option<usize>)
        ensures
            match r {
                Some(j) => (j as int) < self@.pending.len() && self@.pending[j as int].handle
                    == handle && (forall|k: int|
                    0 <= k < j ==> (#[trigger] self@.pending[k].handle) != handle),
                None => forall|k: int|
                    0 <= k < self@.pending.len() ==> (#[trigger] self@.pending[k].handle)
                        != handle,
            },
    {
        let n: usize = self.pending.len();
        let mut j: usize = 0;
        while j < n
            invariant
                n == self.pending@.len(),
                j <= n,
                forall|k: int| 0 <= k < j ==> (#[trigger] self@.pending[k].handle) != handle,
            decreases n - j,
        {
            if self.pending[j].handle == handle {
                return Some(j);
            }
            j = j + 1;
        }
        None
    }
}

} // verus!
