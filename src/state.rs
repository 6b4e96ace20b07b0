//! State cells of the hook store: a write becomes visible from the next pass.
use vstd::prelude::*;

verus! {

/// A state cell as readers and the scheduler see it: the value visible in
/// the current pass, and the value written since, if any.
pub ghost struct CellModel<T> {
    pub current: T,
    pub pending: Option<T>,
}

/// The cell after a write of `v` within a pass.
pub open spec fn written<T>(c: CellModel<T>, v: T) -> CellModel<T> {
    CellModel { current: c.current, pending: Some(v) }
}

/// The cell once the pass ends: the last write, if any, becomes visible.
pub open spec fn committed<T>(c: CellModel<T>) -> CellModel<T> {
    CellModel {
        current: match c.pending {
            Some(v) => v,
            None => c.current,
        },
        pending: None,
    }
}

/// A fresh cell after `n` passes, where pass `i` writes `writes[i]`.
pub open spec fn after_passes<T>(init: T, writes: Seq<T>, n: nat) -> CellModel<T>
    recommends
        n <= writes.len(),
    decreases n,
{
    if n == 0 {
        CellModel { current: init, pending: None }
    } else {
        committed(written(after_passes(init, writes, (n - 1) as nat), writes[n - 1]))
    }
}

/// A reactive value owned by a component instance.
pub struct State<T> {
    value: T,
    written: Option<T>,
}

impl<T> State<T> {
    /// What readers and the scheduler see of the cell.
    pub closed spec fn model(&self) -> CellModel<T> {
        CellModel { current: self.value, pending: self.written }
    }

    /// A clean cell holding `init`.
    pub fn new(init: T) -> (r: State<T>)
        ensures
            r.model() == (CellModel { current: init, pending: None::<T> }),
    {
        State { value: init, written: None }
    }

    /// The value visible in the current pass.
    pub fn read(&self) -> (r: &T)
        ensures
            *r == self.model().current,
    {
        &self.value
    }

    /// Records a new value; readers see it from the next pass on.
    pub fn write(&mut self, v: T)
        ensures
            final(self).model() == written(old(self).model(), v),
    {
        self.written = Some(v);
    }

    /// Whether a write is waiting for the next pass.
    pub fn is_dirty(&self) -> (r: bool)
        ensures
            r == self.model().pending is Some,
    {
        self.written.is_some()
    }

    /// Ends the pass: makes the last write visible. Returns whether there was
    /// one, so that the owner knows to repaint.
    pub fn commit(&mut self) -> (r: bool)
        ensures
            final(self).model() == committed(old(self).model()),
            r == old(self).model().pending is Some,
    {
        match self.written.take() {
            Some(v) => {
                self.value = v;
                true
            },
            None => false,
        }
    }
}

/// When pass `i` writes `writes[i]`, a read in a pass after its write still
/// sees the value from before the pass, and from pass `n` on (after `n`
/// passes) readers see the last write.
pub proof fn lemma_writes_visible_from_next_pass<T>(init: T, writes: Seq<T>)
    ensures
        forall|k: nat|
            k < writes.len() ==> (#[trigger] written(after_passes(init, writes, k), writes[k as int])).current
                == (if k == 0 { init } else { writes[k - 1] }),
        writes.len() > 0 ==> after_passes(init, writes, writes.len()).current == writes.last(),
{
    assert forall|k: nat| k < writes.len() implies (#[trigger] written(
        after_passes(init, writes, k),
        writes[k as int],
    )).current == (if k == 0 { init } else { writes[k - 1] }) by {
        if k > 0 {
            assert(after_passes(init, writes, k).current == writes[k - 1]);
        }
    }
}

} // verus!
