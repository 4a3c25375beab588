use vstd::prelude::*;

use crate::model::{views, Attrs, Crate, CrateView, NewCrate};

verus! {

/// Why a storage operation failed.
#[derive(Clone, Copy, Debug, PartialEq, Eq, Structural)]
pub enum StoreError {
    /// No record has the identifier asked for.
    NotFound,
    /// Every positive `i32` identifier has been handed out.
    IdsExhausted,
}

/// The contents of a table: its records in order of creation, and the
/// identifier that the next record will get.
pub struct TableView {
    pub rows: Seq<CrateView>,
    pub next_id: int,
}

/// The largest identifier a record can have.
pub open spec fn max_id() -> int {
    i32::MAX as int
}

impl TableView {
    /// Identifiers are positive, below `next_id`, and strictly increase along
    /// the rows; so no two rows share one, and none is ever handed out twice.
    pub open spec fn wf(self) -> bool {
        &&& 1 <= self.next_id <= max_id() + 1
        &&& forall|i: int| 0 <= i < self.rows.len() ==> 1 <= #[trigger] self.rows[i].id < self.next_id
        &&& forall|i: int, j: int|
            0 <= i < j < self.rows.len() ==> #[trigger] self.rows[i].id < #[trigger] self.rows[j].id
    }

    pub open spec fn contains_id(self, id: int) -> bool {
        exists|i: int| 0 <= i < self.rows.len() && #[trigger] self.rows[i].id == id
    }

    /// The position of the row with identifier `id`, where there is one.
    pub open spec fn index_of(self, id: int) -> int {
        choose|i: int| 0 <= i < self.rows.len() && #[trigger] self.rows[i].id == id
    }

    /// The attributes stored under `id`, or `None` where no record has it.
    pub open spec fn lookup(self, id: int) -> Option<Attrs> {
        if self.contains_id(id) {
            Some(self.rows[self.index_of(id)].attrs)
        } else {
            None
        }
    }

    /// The first `limit` records, or all of them where there are fewer.
    pub open spec fn listed(self, limit: nat) -> Seq<CrateView> {
        if limit < self.rows.len() {
            self.rows.take(limit as int)
        } else {
            self.rows
        }
    }

    /// Whether an identifier is left for a new record.
    pub open spec fn can_create(self) -> bool {
        self.next_id <= max_id()
    }

    /// The table after a record with attributes `x` is added under `next_id`.
    pub open spec fn created(self, x: Attrs) -> TableView {
        TableView {
            rows: self.rows.push(CrateView { id: self.next_id, attrs: x }),
            next_id: self.next_id + 1,
        }
    }

    /// The table after the record `id` takes the attributes `y`.
    pub open spec fn updated(self, id: int, y: Attrs) -> TableView {
        TableView {
            rows: self.rows.update(self.index_of(id), CrateView { id, attrs: y }),
            next_id: self.next_id,
        }
    }

    /// The table after the record `id` is removed.
    pub open spec fn deleted(self, id: int) -> TableView {
        TableView { rows: self.rows.remove(self.index_of(id)), next_id: self.next_id }
    }
}

/// The row at position `i` is the one that `index_of` picks for its identifier.
pub proof fn lemma_index_of(t: TableView, i: int)
    requires
        t.wf(),
        0 <= i < t.rows.len(),
    ensures
        t.contains_id(t.rows[i].id),
        t.index_of(t.rows[i].id) == i,
{
    let id = t.rows[i].id;
    assert(t.rows[i].id == id);
    let k = t.index_of(id);
    if k < i {
        assert(t.rows[k].id < t.rows[i].id);
    } else if i < k {
        assert(t.rows[i].id < t.rows[k].id);
    }
}

/// A store of crate records in memory, with identifiers assigned in
/// increasing order.
pub struct CrateTable {
    rows: Vec<Crate>,
    next_id: i64,
}

impl View for CrateTable {
    type V = TableView;

    closed spec fn view(&self) -> TableView {
        TableView { rows: views(self.rows@), next_id: self.next_id as int }
    }
}

impl CrateTable {
    pub closed spec fn wf(&self) -> bool {
        self@.wf()
    }

    /// An empty table whose first record gets the identifier 1.
    pub fn new() -> (r: CrateTable)
        ensures
            r.wf(),
            r@.rows.len() == 0,
            r@.next_id == 1,
    {
        let r = CrateTable { rows: Vec::new(), next_id: 1 };
        assert(r@.rows =~= Seq::<CrateView>::empty());
        r
    }

    /// Up to `limit` records, in order of creation.
    pub fn find_multiple(&self, limit: usize) -> (r: Vec<Crate>)
        requires
            self.wf(),
        ensures
            r@.len() <= limit,
            views(r@) == self@.listed(limit as nat),
    {
        let mut r: Vec<Crate> = Vec::new();
        let mut i: usize = 0;
        while i < self.rows.len() && i < limit
            invariant
                i <= self.rows.len(),
                i <= limit,
                self@.rows == views(self.rows@),
                r@.len() == i,
                forall|k: int| 0 <= k < i ==> (#[trigger] r@[k])@ == self@.rows[k],
            decreases self.rows.len() - i,
        {
            let c = self.rows[i].clone();
            assert(c@ == self@.rows[i as int]);
            r.push(c);
            i += 1;
        }
        assert(views(r@) =~= self@.listed(limit as nat));
        r
    }

    /// The record with identifier `id`.
    pub fn find(&self, id: i32) -> (r: Result<Crate, StoreError>)
        requires
            self.wf(),
        ensures
            match r {
                Ok(c) => c.id == id && self@.lookup(id as int) == Some(c@.attrs),
                Err(e) => e == StoreError::NotFound && self@.lookup(id as int) is None,
            },
    {
        match self.position(id) {
            Some(i) => {
                assert(self@.rows[i as int] == self.rows@[i as int]@);
                Ok(self.rows[i].clone())
            },
            None => Err(StoreError::NotFound),
        }
    }

    /// Stores `new_crate` under the next identifier and returns the stored record.
    pub fn create(&mut self, new_crate: NewCrate) -> (r: Result<Crate, StoreError>)
        requires
            old(self).wf(),
        ensures
            final(self).wf(),
            old(self)@.can_create() <==> r is Ok,
            match r {
                Ok(c) => c@ == (CrateView { id: old(self)@.next_id, attrs: new_crate@ })
                    && final(self)@ == old(self)@.created(new_crate@),
                Err(e) => e == StoreError::IdsExhausted && final(self)@ == old(self)@,
            },
    {
        if self.next_id > i32::MAX as i64 {
            return Err(StoreError::IdsExhausted);
        }
        let ghost before = self@;
        let c = Crate::from_new(self.next_id as i32, new_crate);
        self.rows.push(c.clone());
        self.next_id = self.next_id + 1;
        assert(self@.rows =~= before.rows.push(c@));
        Ok(c)
    }

    /// Gives the record `id` the attributes of `a_crate`; the identifier in
    /// `a_crate` is ignored.
    pub fn update(&mut self, id: i32, a_crate: Crate) -> (r: Result<Crate, StoreError>)
        requires
            old(self).wf(),
        ensures
            final(self).wf(),
            old(self)@.contains_id(id as int) <==> r is Ok,
            match r {
                Ok(c) => c@ == (CrateView { id: id as int, attrs: a_crate@.attrs })
                    && final(self)@ == old(self)@.updated(id as int, a_crate@.attrs),
                Err(e) => e == StoreError::NotFound && final(self)@ == old(self)@,
            },
    {
        match self.position(id) {
            Some(i) => {
                let ghost before = self@;
                let c = a_crate.with_id(id);
                self.rows.set(i, c.clone());
                assert(self@.rows =~= before.rows.update(i as int, c@));
                assert forall|k: int| 0 <= k < self@.rows.len() implies #[trigger] self@.rows[k].id
                    == before.rows[k].id by {
                    if k == i {
                        lemma_index_of(before, k);
                    }
                }
                Ok(c)
            },
            None => Err(StoreError::NotFound),
        }
    }

    /// Removes the record `id`.
    pub fn delete(&mut self, id: i32) -> (r: Result<(), StoreError>)
        requires
            old(self).wf(),
        ensures
            final(self).wf(),
            old(self)@.contains_id(id as int) <==> r is Ok,
            match r {
                Ok(_) => final(self)@ == old(self)@.deleted(id as int),
                Err(e) => e == StoreError::NotFound && final(self)@ == old(self)@,
            },
    {
        match self.position(id) {
            Some(i) => {
                let ghost before = self@;
                self.rows.remove(i);
                assert(self@.rows =~= before.rows.remove(i as int));
                assert forall|a: int, b: int| 0 <= a < b < self@.rows.len() implies
                    #[trigger] self@.rows[a].id < #[trigger] self@.rows[b].id by {
                    let a0 = if a < i { a } else { a + 1 };
                    let b0 = if b < i { b } else { b + 1 };
                    assert(before.rows[a0].id < before.rows[b0].id);
                }
                assert forall|k: int| 0 <= k < self@.rows.len() implies 1 <= #[trigger] self@.rows[k].id
                    < self@.next_id by {
                    let k0 = if k < i { k } else { k + 1 };
                    assert(before.rows[k0] == self@.rows[k]);
                }
                Ok(())
            },
            None => Err(StoreError::NotFound),
        }
    }

    /// The position of the row with identifier `id`, if any.
    fn position(&self, id: i32) -> (r: Option<usize>)
        requires
            self.wf(),
        ensures
            match r {
                Some(i) => i < self@.rows.len() && self@.index_of(id as int) == i as int
                    && self@.contains_id(id as int),
                None => !self@.contains_id(id as int),
            },
    {
        let mut i: usize = 0;
        while i < self.rows.len()
            invariant
                self.wf(),
                i <= self.rows.len(),
                self@.rows.len() == self.rows@.len(),
                forall|k: int| 0 <= k < i ==> #[trigger] self@.rows[k].id != id as int,
            decreases self.rows.len() - i,
        {
            assert(self@.rows[i as int] == self.rows@[i as int]@);
            if self.rows[i].id == id {
                proof {
                    lemma_index_of(self@, i as int);
                }
                return Some(i);
            }
            i += 1;
        }
        None
    }
}

} // verus!
