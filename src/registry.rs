use vstd::prelude::*;
use crate::forward::{TunnelSpec, TunnelSpecView};
use crate::lifecycle::Phase;

verus! {

/// One tunnel as the status list shows it.
pub struct Row {
    pub id: u64,
    pub spec: TunnelSpec,
    pub phase: Phase,
}

/// The mathematical value of a [`Row`].
pub struct RowView {
    pub id: u64,
    pub spec: TunnelSpecView,
    pub phase: Phase,
}

impl View for Row {
    type V = RowView;

    open spec fn view(&self) -> RowView {
        RowView { id: self.id, spec: self.spec@, phase: self.phase }
    }
}

/// The tunnels of a session in order of admission, each under an id that is
/// never handed out twice.
pub struct Registry {
    rows: Vec<Row>,
    next_id: u64,
}

/// The mathematical value of a [`Registry`].
pub struct RegistryView {
    pub rows: Seq<RowView>,
    pub next_id: u64,
}

impl View for Registry {
    type V = RegistryView;

    closed spec fn view(&self) -> RegistryView {
        RegistryView { rows: self.rows@.map_values(|r: Row| r@), next_id: self.next_id }
    }
}

/// Ids below the next one to hand out, increasing along the rows.
pub open spec fn wf(v: RegistryView) -> bool {
    &&& forall|k: int| 0 <= k < v.rows.len() ==> #[trigger] v.rows[k].id < v.next_id
    &&& forall|i: int, j: int| 0 <= i < j < v.rows.len() ==> v.rows[i].id < v.rows[j].id
}

/// The position of the row with id `id`.
pub open spec fn position(v: RegistryView, id: u64) -> Option<int> {
    if exists|k: int| 0 <= k < v.rows.len() && v.rows[k].id == id {
        Some(choose|k: int| 0 <= k < v.rows.len() && v.rows[k].id == id)
    } else {
        None
    }
}

/// How many rows are not over yet.
pub open spec fn pending_count(rows: Seq<RowView>) -> nat
    decreases rows.len(),
{
    if rows.len() == 0 {
        0
    } else {
        pending_count(rows.drop_last()) + if rows.last().phase == Phase::Exited {
            0nat
        } else {
            1nat
        }
    }
}

impl Registry {
    pub fn new() -> (r: Registry)
        ensures
            r@.rows.len() == 0,
            wf(r@),
    {
        Registry { rows: Vec::new(), next_id: 0 }
    }

    /// Appends a row for `spec` in phase `Starting` under a fresh id; `None`
    /// only when every id has been used.
    pub fn add(&mut self, spec: TunnelSpec) -> (r: Option<u64>)
        requires
            wf(old(self)@),
        ensures
            wf(final(self)@),
            old(self)@.next_id == u64::MAX ==> r is None && final(self)@ == old(self)@,
            old(self)@.next_id < u64::MAX ==> r == Some(old(self)@.next_id) && final(self)@
                == (RegistryView {
                rows: old(self)@.rows.push(
                    RowView { id: old(self)@.next_id, spec: spec@, phase: Phase::Starting },
                ),
                next_id: (old(self)@.next_id + 1) as u64,
            }),
    {
        if self.next_id == u64::MAX {
            return None;
        }
        let id = self.next_id;
        let ghost before = self.rows@;
        self.rows.push(Row { id, spec, phase: Phase::Starting });
        self.next_id = id + 1;
        assert(self.rows@.map_values(|r: Row| r@) =~= before.map_values(|r: Row| r@).push(
            RowView { id, spec: spec@, phase: Phase::Starting },
        ));
        Some(id)
    }

    fn index_of(&self, id: u64) -> (r: Option<usize>)
        requires
            wf(self@),
        ensures
            match r {
                Some(k) => position(self@, id) == Some(k as int),
                None => position(self@, id) is None,
            },
    {
        let mut k: usize = 0;
        while k < self.rows.len()
            invariant
                k <= self.rows@.len(),
                wf(self@),
                forall|m: int| 0 <= m < k ==> self@.rows[m].id != id,
            decreases self.rows@.len() - k,
        {
            assert(self@.rows[k as int] == self.rows@[k as int]@);
            if self.rows[k].id == id {
                assert(0 <= k < self@.rows.len() && self@.rows[k as int].id == id);
                let ghost c = choose|m: int| 0 <= m < self@.rows.len() && self@.rows[m].id == id;
                assert(c == k as int) by {
                    if c < k {
                    } else if c > k {
                        assert(self@.rows[k as int].id < self@.rows[c].id);
                    }
                }
                return Some(k);
            }
            k = k + 1;
        }
        None
    }

    /// Records the phase of the tunnel `id`; false, with nothing changed, when
    /// no row has that id.
    pub fn set_phase(&mut self, id: u64, phase: Phase) -> (found: bool)
        requires
            wf(old(self)@),
        ensures
            wf(final(self)@),
            found == position(old(self)@, id) is Some,
            match position(old(self)@, id) {
                Some(k) => final(self)@ == (RegistryView {
                    rows: old(self)@.rows.update(
                        k,
                        RowView { phase, ..old(self)@.rows[k] },
                    ),
                    next_id: old(self)@.next_id,
                }),
                None => final(self)@ == old(self)@,
            },
    {
        match self.index_of(id) {
            None => false,
            Some(k) => {
                let ghost before = self.rows@;
                let mut row = self.rows.remove(k);
                row.phase = phase;
                self.rows.insert(k, row);
                assert(self.rows@.map_values(|r: Row| r@) =~= before.map_values(|r: Row| r@).update(
                    k as int,
                    RowView { phase, ..before[k as int]@ },
                ));
                true
            },
        }
    }

    /// Takes the tunnel `id` off the list; false, with nothing changed, when no
    /// row has that id.
    pub fn remove(&mut self, id: u64) -> (found: bool)
        requires
            wf(old(self)@),
        ensures
            wf(final(self)@),
            found == position(old(self)@, id) is Some,
            match position(old(self)@, id) {
                Some(k) => final(self)@ == (RegistryView {
                    rows: old(self)@.rows.remove(k),
                    next_id: old(self)@.next_id,
                }),
                None => final(self)@ == old(self)@,
            },
    {
        match self.index_of(id) {
            None => false,
            Some(k) => {
                let ghost before = self.rows@;
                let ghost old_view = self@;
                let _ = self.rows.remove(k);
                assert(self.rows@.map_values(|r: Row| r@) =~= before.map_values(|r: Row| r@).remove(
                    k as int,
                ));
                assert forall|i: int, j: int|
                    0 <= i < j < self@.rows.len() implies self@.rows[i].id < self@.rows[j].id by {
                    let oi = if i < k { i } else { i + 1 };
                    let oj = if j < k { j } else { j + 1 };
                    assert(self@.rows[i] == old_view.rows[oi]);
                    assert(self@.rows[j] == old_view.rows[oj]);
                }
                assert forall|m: int| 0 <= m < self@.rows.len() implies #[trigger] self@.rows[m].id
                    < self@.next_id by {
                    let om = if m < k { m } else { m + 1 };
                    assert(self@.rows[m] == old_view.rows[om]);
                }
                true
            },
        }
    }

    /// The rows, in order of admission.
    pub fn rows(&self) -> (r: &Vec<Row>)
        ensures
            r@.map_values(|x: Row| x@) == self@.rows,
    {
        &self.rows
    }

    /// How many tunnels are not over yet.
    pub fn pending(&self) -> (r: usize)
        ensures
            r == pending_count(self@.rows),
    {
        let mut n: usize = 0;
        let mut k: usize = 0;
        while k < self.rows.len()
            invariant
                k <= self.rows@.len(),
                n <= k,
                n == pending_count(self@.rows.subrange(0, k as int)),
            decreases self.rows@.len() - k,
        {
            assert(self@.rows.subrange(0, k + 1).drop_last() =~= self@.rows.subrange(0, k as int));
            assert(self@.rows[k as int] == self.rows@[k as int]@);
            if self.rows[k].phase != Phase::Exited {
                n = n + 1;
            }
            k = k + 1;
        }
        assert(self@.rows.subrange(0, k as int) =~= self@.rows);
        n
    }
}

/// No tunnel is pending exactly when every row is over.
pub proof fn lemma_pending_zero(rows: Seq<RowView>)
    ensures
        (pending_count(rows) == 0) == (forall|k: int|
            0 <= k < rows.len() ==> #[trigger] rows[k].phase == Phase::Exited),
    decreases rows.len(),
{
    if rows.len() > 0 {
        lemma_pending_zero(rows.drop_last());
        if pending_count(rows) == 0 {
            assert forall|k: int| 0 <= k < rows.len() implies #[trigger] rows[k].phase
                == Phase::Exited by {
                if k < rows.len() - 1 {
                    assert(rows.drop_last()[k] == rows[k]);
                }
            }
        } else if pending_count(rows.drop_last()) > 0 {
            let k = choose|k: int|
                0 <= k < rows.len() - 1 && !(#[trigger] rows.drop_last()[k].phase == Phase::Exited);
            assert(rows[k] == rows.drop_last()[k]);
        } else {
            assert(rows[rows.len() - 1].phase != Phase::Exited);
        }
    }
}

/// Marking a pending tunnel as exited lowers the number still pending by one:
/// the wait for all tunnels ends after as many exits as there were pending.
pub proof fn lemma_exit_lowers_pending(rows: Seq<RowView>, k: int)
    requires
        0 <= k < rows.len(),
        rows[k].phase != Phase::Exited,
    ensures
        pending_count(rows.update(k, RowView { phase: Phase::Exited, ..rows[k] })) + 1
            == pending_count(rows),
    decreases rows.len(),
{
    let u = rows.update(k, RowView { phase: Phase::Exited, ..rows[k] });
    if k == rows.len() - 1 {
        assert(u.drop_last() =~= rows.drop_last());
    } else {
        assert(u.drop_last() =~= rows.drop_last().update(
            k,
            RowView { phase: Phase::Exited, ..rows[k] },
        ));
        lemma_exit_lowers_pending(rows.drop_last(), k);
    }
}

} // verus!
