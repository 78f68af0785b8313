//! Opaque handles for adapter identifiers, valid for one stop only.
//!
//! Adapters reuse small integers for scopes, variables and stack frames from
//! one stop to the next.  A [`HandleTable`] hides that: each adapter
//! identifier seen during a stop gets a handle drawn from a counter that
//! only grows, so a handle of an earlier stop can never be mistaken for one
//! of the current stop.
use vstd::prelude::*;

verus! {

/// A handle for a scope.
pub type ScopeId = u64;

/// A handle for a variable container.
pub type VariableReference = u64;

/// A handle for a stack frame.
pub type StackFrameId = u64;

/// Why a handle operation failed.
#[derive(Clone, Copy, Debug, PartialEq, Eq, Structural)]
pub enum HandleError {
    /// The handle does not belong to the live generation, or there is none.
    StaleHandle,
    /// Every 64-bit handle value has been handed out.
    Exhausted,
}

/// The mathematical content of a [`HandleTable`].
pub struct HandleTableModel {
    /// The smallest handle the table may give out.
    pub floor: nat,
    /// The bound below which every handle of the table stays.
    pub limit: nat,
    /// The handle of the first identifier of the current generation.
    pub base: nat,
    /// The adapter identifiers of the current generation, in minting order.
    pub ids: Seq<u64>,
    /// Whether a generation is live.
    pub live: bool,
}

impl HandleTableModel {
    /// No identifier occurs twice, handles stay within the table's range,
    /// and a table without a live generation holds nothing.
    pub open spec fn wf(self) -> bool {
        &&& self.floor <= self.base
        &&& self.base + self.ids.len() <= self.limit
        &&& self.limit <= u64::MAX
        &&& (!self.live ==> self.ids.len() == 0)
        &&& forall|i: int, j: int|
            0 <= i < j < self.ids.len() ==> self.ids[i] != self.ids[j]
    }

    /// The table before any stop, with the handles from `first` up to but
    /// not including `limit` to give out; none where `limit` is not above
    /// `first`.
    pub open spec fn within(first: u64, limit: u64) -> Self {
        HandleTableModel {
            floor: first as nat,
            limit: if limit < first {
                first as nat
            } else {
                limit as nat
            },
            base: first as nat,
            ids: Seq::empty(),
            live: false,
        }
    }

    /// The table before any stop, with every 64-bit value but the largest
    /// to give out.
    pub open spec fn initial() -> Self {
        Self::within(0, u64::MAX)
    }

    /// The table after a stop began: all earlier handles are retired.
    pub open spec fn begin(self) -> Self {
        HandleTableModel {
            base: self.base + self.ids.len(),
            ids: Seq::empty(),
            live: true,
            ..self
        }
    }

    /// The table after execution resumed or ended: all handles are retired.
    pub open spec fn end(self) -> Self {
        HandleTableModel {
            base: self.base + self.ids.len(),
            ids: Seq::empty(),
            live: false,
            ..self
        }
    }

    /// Whether `handle` belongs to the live generation.
    pub open spec fn valid(self, handle: u64) -> bool {
        self.live && self.base <= handle < self.base + self.ids.len()
    }

    /// The adapter identifier behind `handle`.
    pub open spec fn resolve(self, handle: u64) -> Result<u64, HandleError> {
        if self.valid(handle) {
            Ok(self.ids[handle - self.base])
        } else {
            Err(HandleError::StaleHandle)
        }
    }

    /// The table after `adapter_id` was interned, and the handle it got.
    /// An identifier already known in this generation keeps its handle.
    pub open spec fn intern(self, adapter_id: u64) -> (Self, Result<u64, HandleError>) {
        if !self.live {
            (self, Err(HandleError::StaleHandle))
        } else if self.ids.contains(adapter_id) {
            (self, Ok((self.base + self.ids.index_of(adapter_id)) as u64))
        } else if self.base + self.ids.len() >= self.limit {
            (self, Err(HandleError::Exhausted))
        } else {
            (
                HandleTableModel { ids: self.ids.push(adapter_id), ..self },
                Ok((self.base + self.ids.len()) as u64),
            )
        }
    }

    /// The table after each identifier of `adapter_ids` was interned in turn.
    pub open spec fn intern_all(self, adapter_ids: Seq<u64>) -> Self
        decreases adapter_ids.len(),
    {
        if adapter_ids.len() == 0 {
            self
        } else {
            self.intern_all(adapter_ids.drop_last()).intern(adapter_ids.last()).0
        }
    }
}

/// The handles of one kind of adapter identifier.
#[derive(Debug)]
pub struct HandleTable {
    floor: u64,
    limit: u64,
    base: u64,
    ids: Vec<u64>,
    live: bool,
}

impl View for HandleTable {
    type V = HandleTableModel;

    closed spec fn view(&self) -> HandleTableModel {
        HandleTableModel {
            floor: self.floor as nat,
            limit: self.limit as nat,
            base: self.base as nat,
            ids: self.ids@,
            live: self.live,
        }
    }
}

impl HandleTable {
    /// The table's invariant.
    pub open spec fn wf(&self) -> bool {
        self@.wf()
    }

    /// A table with no live generation.
    pub fn new() -> (r: Self)
        ensures
            r.wf(),
            r@ == HandleTableModel::initial(),
    {
        Self::within(0, u64::MAX)
    }

    /// A table with no live generation that gives out the handles from
    /// `first` up to but not including `limit`.  Tables with ranges that do
    /// not overlap never give out the same handle, which keeps handles
    /// apart when several sessions run side by side.
    pub fn within(first: u64, limit: u64) -> (r: Self)
        ensures
            r.wf(),
            r@ == HandleTableModel::within(first, limit),
    {
        let limit = if limit < first {
            first
        } else {
            limit
        };
        HandleTable { floor: first, limit, base: first, ids: Vec::new(), live: false }
    }

    /// Starts a new generation and retires every handle given out so far.
    pub fn begin_generation(&mut self)
        requires
            old(self).wf(),
        ensures
            final(self).wf(),
            final(self)@ == old(self)@.begin(),
    {
        let count: u64 = self.ids.len() as u64;
        self.base = self.base + count;
        self.ids.clear();
        self.live = true;
    }

    /// Ends the live generation, if any, and retires its handles.
    pub fn end_generation(&mut self)
        requires
            old(self).wf(),
        ensures
            final(self).wf(),
            final(self)@ == old(self)@.end(),
    {
        let count: u64 = self.ids.len() as u64;
        self.base = self.base + count;
        self.ids.clear();
        self.live = false;
    }

    /// Whether a generation is live.
    pub fn is_live(&self) -> (r: bool)
        ensures
            r == self@.live,
    {
        self.live
    }

    /// The handle for `adapter_id` in the live generation, minted now unless
    /// the identifier already has one.
    pub fn intern(&mut self, adapter_id: u64) -> (r: Result<u64, HandleError>)
        requires
            old(self).wf(),
        ensures
            final(self).wf(),
            final(self)@ == old(self)@.intern(adapter_id).0,
            r == old(self)@.intern(adapter_id).1,
    {
        if !self.live {
            return Err(HandleError::StaleHandle);
        }
        let mut i: usize = 0;
        while i < self.ids.len()
            invariant
                i <= self.ids.len(),
                *self == *old(self),
                self.wf(),
                forall|j: int| 0 <= j < i ==> self.ids@[j] != adapter_id,
            decreases self.ids.len() - i,
        {
            if self.ids[i] == adapter_id {
                proof {
                    let k = self.ids@.index_of(adapter_id);
                    assert(self.ids@.contains(adapter_id));
                    assert(k == i as int);
                }
                return Ok(self.base + i as u64);
            }
            i = i + 1;
        }
        assert(!self.ids@.contains(adapter_id));
        let count: u64 = self.ids.len() as u64;
        if self.base >= self.limit - count {
            return Err(HandleError::Exhausted);
        }
        self.ids.push(adapter_id);
        Ok(self.base + count)
    }

    /// The adapter identifier behind `handle`, or `StaleHandle` when the
    /// handle is not of the live generation.
    pub fn resolve(&self, handle: u64) -> (r: Result<u64, HandleError>)
        requires
            self.wf(),
        ensures
            r == self@.resolve(handle),
    {
        if !self.live || handle < self.base {
            return Err(HandleError::StaleHandle);
        }
        let offset: u64 = handle - self.base;
        if offset >= self.ids.len() as u64 {
            return Err(HandleError::StaleHandle);
        }
        Ok(self.ids[offset as usize])
    }
}

/// Interning never moves the base of a generation and keeps the table well
/// formed.
pub proof fn lemma_intern_all_keeps_generation(m: HandleTableModel, adapter_ids: Seq<u64>)
    requires
        m.wf(),
    ensures
        m.intern_all(adapter_ids).wf(),
        m.intern_all(adapter_ids).base == m.base,
        m.intern_all(adapter_ids).live == m.live,
        m.intern_all(adapter_ids).floor == m.floor,
        m.intern_all(adapter_ids).limit == m.limit,
    decreases adapter_ids.len(),
{
    if adapter_ids.len() > 0 {
        lemma_intern_all_keeps_generation(m, adapter_ids.drop_last());
    }
}

/// A handle that is valid in one generation is stale in the next, whatever
/// is interned there: once execution has resumed and stopped again, looking
/// the handle up fails with `StaleHandle`.
pub proof fn lemma_handle_stale_in_next_generation(
    m: HandleTableModel,
    handle: u64,
    adapter_ids: Seq<u64>,
)
    requires
        m.wf(),
        m.valid(handle),
    ensures
        m.end().begin().intern_all(adapter_ids).resolve(handle) == Err::<u64, HandleError>(
            HandleError::StaleHandle,
        ),
        m.begin().intern_all(adapter_ids).resolve(handle) == Err::<u64, HandleError>(
            HandleError::StaleHandle,
        ),
{
    lemma_intern_all_keeps_generation(m.end().begin(), adapter_ids);
    lemma_intern_all_keeps_generation(m.begin(), adapter_ids);
}

/// Within one generation a handle keeps meaning the identifier it was
/// minted for: interning more identifiers does not change what it resolves
/// to, and interning an identifier then resolving its handle gives the
/// identifier back.
pub proof fn lemma_intern_then_resolve(m: HandleTableModel, adapter_id: u64, handle: u64)
    requires
        m.wf(),
    ensures
        m.intern(adapter_id).0.wf(),
        m.valid(handle) ==> m.intern(adapter_id).0.resolve(handle) == m.resolve(handle),
        m.intern(adapter_id).1 matches Ok(h) ==> m.intern(adapter_id).0.resolve(h) == Ok::<
            u64,
            HandleError,
        >(adapter_id),
{
    if m.live && m.ids.contains(adapter_id) {
        let k = m.ids.index_of(adapter_id);
        assert(m.ids[k] == adapter_id);
    }
}

/// Tables with ranges that do not overlap never share a handle.
pub proof fn lemma_disjoint_tables_share_no_handle(
    a: HandleTableModel,
    b: HandleTableModel,
    handle: u64,
)
    requires
        a.wf(),
        b.wf(),
        a.limit <= b.floor,
    ensures
        !(a.valid(handle) && b.valid(handle)),
{
}

} // verus!
