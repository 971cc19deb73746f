//! Batched resolution of every manifest asset, from the cache when its digest
//! still matches and from the origin otherwise. The pool decides; the caller
//! performs the reads, fetches and writes and reports back. At most one
//! batch of `ceiling` assets is open at a time, and results are kept by
//! manifest position, so their order never depends on completion order.
use vstd::prelude::*;
use crate::integrity::{is_fresh, sri_of};

verus! {

/// One entry of the remote manifest.
#[derive(Debug, Clone)]
pub struct AssetDescriptor {
    pub logical_path: String,
    pub integrity_digest: String,
}

/// Where one asset stands.
#[derive(Debug, Clone)]
pub enum Slot {
    /// Not looked at yet.
    Pending,
    /// The cache had no fresh copy; waiting for the origin.
    Fetching,
    /// Final content, and whether it came from the origin.
    Resolved { content: String, fetched: bool },
}

/// What the caller must do next for one asset.
#[derive(Debug, Clone, PartialEq, Eq)]
pub enum TaskStep {
    /// The cached copy is fresh: nothing to fetch, nothing to write.
    UseCached,
    /// Fetch the asset at this logical path from the origin.
    Fetch(String),
    /// Write this content to the cache under this logical path.
    Store(String, String),
}

/// An event that does not fit the pool's state.
#[derive(Debug, Clone, PartialEq, Eq)]
pub enum PoolError {
    /// The asset at this position is not in the open batch, or is not
    /// waiting for that event.
    UnexpectedEvent(usize),
}

/// Batch `k` of those that cover `n` assets with at most `c` in each.
pub open spec fn batch_spec(n: int, c: int, k: int) -> (int, int) {
    (k * c, if (k + 1) * c <= n { (k + 1) * c } else { n })
}

/// How many batches cover `n` assets with at most `c` in each.
pub open spec fn batch_count(n: int, c: int) -> int {
    if n <= 0 { 0 } else { (n - 1) / c + 1 }
}

/// The ranges `[start, end)` of the batches that cover `n` assets with at most
/// `ceiling` in each.
pub fn batch_ranges(n: usize, ceiling: usize) -> (r: Vec<(usize, usize)>)
    requires
        ceiling > 0,
    ensures
        r@.len() == batch_count(n as int, ceiling as int),
        forall|k: int| 0 <= k < r@.len() ==> ((#[trigger] r@[k]).0 as int, r@[k].1 as int) == batch_spec(n as int, ceiling as int, k),
{
    let mut r: Vec<(usize, usize)> = Vec::new();
    let mut start: usize = 0;
    let ghost mut k: int = 0;
    while start < n
        invariant
            ceiling > 0,
            start <= n,
            r@.len() == k,
            k >= 0,
            start < n ==> start == k * ceiling,
            start == n ==> k == batch_count(n as int, ceiling as int),
            forall|j: int| 0 <= j < k ==> ((#[trigger] r@[j]).0 as int, r@[j].1 as int) == batch_spec(n as int, ceiling as int, j),
        decreases n - start,
    {
        let end: usize = if ceiling <= n - start { start + ceiling } else { n };
        proof {
            assert((k + 1) * ceiling == k * ceiling + ceiling) by (nonlinear_arith);
        }
        r.push((start, end));
        proof {
            if end == n {
                assert(k == (n - 1) / (ceiling as int)) by (nonlinear_arith)
                    requires
                        start == k * ceiling,
                        n <= start + ceiling,
                        start < n,
                        ceiling > 0,
                        k >= 0,
                ;
            }
            assert forall|j: int| 0 <= j < k + 1 implies ((#[trigger] r@[j]).0 as int, r@[j].1 as int) == batch_spec(n as int, ceiling as int, j) by {
                if j == k {
                }
            }
            k = k + 1;
        }
        start = end;
    }
    r
}

/// The pool: the manifest, the ceiling, the open batch `[start, end)` and one
/// slot per asset.
pub struct FetchPool {
    assets: Vec<AssetDescriptor>,
    ceiling: usize,
    start: usize,
    end: usize,
    slots: Vec<Slot>,
}

impl FetchPool {
    pub closed spec fn assets_spec(&self) -> Seq<AssetDescriptor> {
        self.assets@
    }

    pub closed spec fn ceiling_spec(&self) -> int {
        self.ceiling as int
    }

    /// First position of the open batch.
    pub closed spec fn start_spec(&self) -> int {
        self.start as int
    }

    /// One past the last position of the open batch.
    pub closed spec fn end_spec(&self) -> int {
        self.end as int
    }

    pub closed spec fn slots_spec(&self) -> Seq<Slot> {
        self.slots@
    }

    pub open spec fn in_batch(&self, i: int) -> bool {
        self.start_spec() <= i < self.end_spec()
    }

    pub open spec fn batch_done(&self) -> bool {
        forall|i: int| self.in_batch(i) ==> #[trigger] self.slots_spec()[i] is Resolved
    }

    /// Everything before the open batch is resolved, nothing after it has
    /// started, and the batch holds at most `ceiling` assets.
    pub open spec fn wf(&self) -> bool {
        &&& self.ceiling_spec() > 0
        &&& 0 <= self.start_spec() <= self.end_spec() <= self.assets_spec().len()
        &&& self.end_spec() - self.start_spec() <= self.ceiling_spec()
        &&& self.slots_spec().len() == self.assets_spec().len()
        &&& forall|i: int| 0 <= i < self.start_spec() ==> #[trigger] self.slots_spec()[i] is Resolved
        &&& forall|i: int| self.end_spec() <= i < self.slots_spec().len() ==> #[trigger] self.slots_spec()[i] is Pending
    }

    /// A pool over the manifest with no batch open. `None` when the ceiling is 0.
    pub fn new(assets: Vec<AssetDescriptor>, ceiling: usize) -> (r: Option<FetchPool>)
        ensures
            r is None <==> ceiling == 0,
            r matches Some(p) ==> p.wf() && p.assets_spec() == assets@ && p.ceiling_spec() == ceiling
                && p.start_spec() == 0 && p.end_spec() == 0
                && forall|i: int| 0 <= i < assets@.len() ==> #[trigger] p.slots_spec()[i] is Pending,
    {
        if ceiling == 0 {
            return None;
        }
        let n = assets.len();
        let mut slots: Vec<Slot> = Vec::new();
        let mut i: usize = 0;
        while i < n
            invariant
                i <= n,
                slots@.len() == i,
                forall|j: int| 0 <= j < i ==> #[trigger] slots@[j] is Pending,
            decreases n - i,
        {
            slots.push(Slot::Pending);
            i = i + 1;
        }
        Some(FetchPool { assets, ceiling, start: 0, end: 0, slots })
    }

    pub fn len(&self) -> (r: usize)
        ensures
            r == self.assets_spec().len(),
    {
        self.assets.len()
    }

    /// Opens the next batch once every asset of the open one is resolved:
    /// the next `ceiling` assets, or fewer at the end of the manifest.
    /// `None`, with nothing changed, while the open batch is unfinished or
    /// when no asset is left.
    pub fn next_batch(&mut self) -> (r: Option<(usize, usize)>)
        requires
            old(self).wf(),
        ensures
            final(self).wf(),
            final(self).assets_spec() == old(self).assets_spec(),
            final(self).ceiling_spec() == old(self).ceiling_spec(),
            final(self).slots_spec() == old(self).slots_spec(),
            r is Some <==> old(self).batch_done() && old(self).end_spec() < old(self).assets_spec().len(),
            r is None ==> final(self).start_spec() == old(self).start_spec() && final(self).end_spec() == old(self).end_spec(),
            r matches Some((s, e)) ==> s == old(self).end_spec() && e == (if old(self).end_spec() + old(self).ceiling_spec() <= old(self).assets_spec().len() {
                old(self).end_spec() + old(self).ceiling_spec()
            } else {
                old(self).assets_spec().len() as int
            }) && final(self).start_spec() == s && final(self).end_spec() == e,
    {
        let n = self.assets.len();
        if self.end >= n {
            return None;
        }
        let mut i: usize = self.start;
        while i < self.end
            invariant
                self.wf(),
                self.start <= i <= self.end,
                forall|j: int| self.start <= j < i ==> #[trigger] self.slots@[j] is Resolved,
            decreases self.end - i,
        {
            if !matches!(self.slots[i], Slot::Resolved { .. }) {
                return None;
            }
            i = i + 1;
        }
        let start = self.end;
        let end: usize = if self.ceiling <= n - start { start + self.ceiling } else { n };
        self.start = start;
        self.end = end;
        Some((start, end))
    }

    /// The cache read for asset `i` came back with `cached`. A copy whose
    /// digest equals the manifest's resolves the asset with no fetch;
    /// anything else, a missing copy included, asks for a fetch.
    pub fn on_cache_read(&mut self, i: usize, cached: Option<String>) -> (r: Result<TaskStep, PoolError>)
        requires
            old(self).wf(),
        ensures
            final(self).wf(),
            final(self).assets_spec() == old(self).assets_spec(),
            final(self).ceiling_spec() == old(self).ceiling_spec(),
            final(self).start_spec() == old(self).start_spec(),
            final(self).end_spec() == old(self).end_spec(),
            !(old(self).in_batch(i as int) && old(self).slots_spec()[i as int] is Pending) ==> r
                == Err::<TaskStep, PoolError>(PoolError::UnexpectedEvent(i)) && final(self).slots_spec() == old(self).slots_spec(),
            old(self).in_batch(i as int) && old(self).slots_spec()[i as int] is Pending ==> ({
                let d = old(self).assets_spec()[i as int];
                match cached {
                    Some(c) if sri_of(c@) == d.integrity_digest@ => r == Ok::<TaskStep, PoolError>(TaskStep::UseCached)
                        && final(self).slots_spec() == old(self).slots_spec().update(i as int, Slot::Resolved { content: c, fetched: false }),
                    _ => r == Ok::<TaskStep, PoolError>(TaskStep::Fetch(d.logical_path))
                        && final(self).slots_spec() == old(self).slots_spec().update(i as int, Slot::Fetching),
                }
            }),
    {
        if !(self.start <= i && i < self.end && matches!(self.slots[i], Slot::Pending)) {
            return Err(PoolError::UnexpectedEvent(i));
        }
        match cached {
            Some(c) => {
                if is_fresh(c.as_str(), self.assets[i].integrity_digest.as_str()) {
                    self.slots.set(i, Slot::Resolved { content: c, fetched: false });
                    Ok(TaskStep::UseCached)
                } else {
                    self.slots.set(i, Slot::Fetching);
                    Ok(TaskStep::Fetch(self.assets[i].logical_path.clone()))
                }
            },
            None => {
                self.slots.set(i, Slot::Fetching);
                Ok(TaskStep::Fetch(self.assets[i].logical_path.clone()))
            },
        }
    }

    /// The origin returned `content` for asset `i`: it resolves the asset and
    /// is to be written over the cache entry.
    pub fn on_fetched(&mut self, i: usize, content: String) -> (r: Result<TaskStep, PoolError>)
        requires
            old(self).wf(),
        ensures
            final(self).wf(),
            final(self).assets_spec() == old(self).assets_spec(),
            final(self).ceiling_spec() == old(self).ceiling_spec(),
            final(self).start_spec() == old(self).start_spec(),
            final(self).end_spec() == old(self).end_spec(),
            !(i < old(self).slots_spec().len() && old(self).slots_spec()[i as int] is Fetching) ==> r
                == Err::<TaskStep, PoolError>(PoolError::UnexpectedEvent(i)) && final(self).slots_spec() == old(self).slots_spec(),
            i < old(self).slots_spec().len() && old(self).slots_spec()[i as int] is Fetching ==> r == Ok::<TaskStep, PoolError>(
                TaskStep::Store(old(self).assets_spec()[i as int].logical_path, content),
            ) && final(self).slots_spec() == old(self).slots_spec().update(i as int, Slot::Resolved { content, fetched: true }),
    {
        if !(i < self.slots.len() && matches!(self.slots[i], Slot::Fetching)) {
            return Err(PoolError::UnexpectedEvent(i));
        }
        let stored = content.clone();
        self.slots.set(i, Slot::Resolved { content, fetched: true });
        Ok(TaskStep::Store(self.assets[i].logical_path.clone(), stored))
    }

    /// Every asset is resolved.
    pub open spec fn finished(&self) -> bool {
        forall|i: int| 0 <= i < self.slots_spec().len() ==> #[trigger] self.slots_spec()[i] is Resolved
    }

    /// The resolved contents in manifest order, once every asset is
    /// resolved; `None` before.
    pub fn results(&self) -> (r: Option<Vec<String>>)
        requires
            self.wf(),
        ensures
            r is Some <==> self.finished(),
            r matches Some(v) ==> v@.len() == self.slots_spec().len() && forall|i: int| 0 <= i < v@.len() ==> ((#[trigger] self.slots_spec()[i]) matches Slot::Resolved { content, .. } && v@[i] == content),
    {
        let n = self.slots.len();
        let mut out: Vec<String> = Vec::new();
        let mut i: usize = 0;
        while i < n
            invariant
                n == self.slots@.len(),
                i <= n,
                out@.len() == i,
                forall|j: int| 0 <= j < i ==> ((#[trigger] self.slots@[j]) matches Slot::Resolved { content, .. } && out@[j] == content),
            decreases n - i,
        {
            match &self.slots[i] {
                Slot::Resolved { content, .. } => out.push(content.clone()),
                _ => return None,
            }
            i = i + 1;
        }
        Some(out)
    }
}

/// The outcomes of two different assets may be recorded in either order:
/// the slots come out the same, so the results do not depend on which task
/// finished first.
pub proof fn lemma_completion_order_irrelevant(slots: Seq<Slot>, i: int, a: Slot, j: int, b: Slot)
    requires
        0 <= i < slots.len(),
        0 <= j < slots.len(),
        i != j,
    ensures
        slots.update(i, a).update(j, b) == slots.update(j, b).update(i, a),
{
    assert(slots.update(i, a).update(j, b) =~= slots.update(j, b).update(i, a));
}

/// While a batch is open, only its assets can be waiting for the origin,
/// and there are at most `ceiling` of them.
pub proof fn lemma_in_flight_bounded(p: FetchPool, i: int)
    requires
        p.wf(),
        0 <= i < p.slots_spec().len(),
        p.slots_spec()[i] is Fetching,
    ensures
        p.in_batch(i),
        p.end_spec() - p.start_spec() <= p.ceiling_spec(),
{
}

} // verus!
