use vstd::prelude::*;

use crate::model::{Attrs, CrateView};
use crate::routes::{failure_view, view_reply, BodyView, ReplyView};
use crate::table::{lemma_index_of, TableView};

verus! {

/// A write request against the table, as a mathematical value.
pub enum Op {
    Create(Attrs),
    Update(int, Attrs),
    Delete(int),
}

impl TableView {
    /// The table after `op`, as `create_crate`, `update_crate` and
    /// `delete_crate` leave it: a failed operation changes nothing.
    pub open spec fn apply(self, op: Op) -> TableView {
        match op {
            Op::Create(x) => if self.can_create() { self.created(x) } else { self },
            Op::Update(id, y) => if self.contains_id(id) { self.updated(id, y) } else { self },
            Op::Delete(id) => if self.contains_id(id) { self.deleted(id) } else { self },
        }
    }

    /// The table after the operations `ops`, in order.
    pub open spec fn run(self, ops: Seq<Op>) -> TableView
        decreases ops.len(),
    {
        if ops.len() == 0 {
            self
        } else {
            self.run(ops.drop_last()).apply(ops.last())
        }
    }
}

/// What the operations `ops`, run on `t`, last wrote under `id`: the attributes
/// of the last create that got `id` or the last update of `id` that succeeded,
/// `None` where a delete of `id` came after them, and what `t` holds under `id`
/// where none of them touched it.
pub open spec fn last_write(t: TableView, ops: Seq<Op>, id: int) -> Option<Attrs>
    decreases ops.len(),
{
    if ops.len() == 0 {
        t.lookup(id)
    } else {
        let before = t.run(ops.drop_last());
        let earlier = last_write(t, ops.drop_last(), id);
        match ops.last() {
            Op::Create(x) => if before.can_create() && before.next_id == id { Some(x) } else { earlier },
            Op::Update(j, y) => if j == id && before.contains_id(id) { Some(y) } else { earlier },
            Op::Delete(j) => if j == id && before.contains_id(id) { None } else { earlier },
        }
    }
}

/// A create keeps the table well formed; the new record is found under the
/// identifier that was handed out, and every other lookup is unchanged.
pub proof fn lemma_lookup_created(t: TableView, x: Attrs, id: int)
    requires
        t.wf(),
        t.can_create(),
    ensures
        t.created(x).wf(),
        t.created(x).lookup(id) == if id == t.next_id { Some(x) } else { t.lookup(id) },
{
    let c = t.created(x);
    let n = t.rows.len() as int;
    assert forall|i: int| 0 <= i < n implies #[trigger] c.rows[i] == t.rows[i] by {}
    assert(c.rows[n].id == t.next_id);
    assert(c.wf());
    if id == t.next_id {
        lemma_index_of(c, n);
    } else if t.contains_id(id) {
        let i = t.index_of(id);
        lemma_index_of(t, i);
        lemma_index_of(c, i);
    } else {
        assert(!c.contains_id(id)) by {
            if c.contains_id(id) {
                let k = c.index_of(id);
                assert(t.rows[k].id == id);
            }
        }
    }
}

/// An update keeps the table well formed and changes what is found under the
/// updated identifier only.
pub proof fn lemma_lookup_updated(t: TableView, j: int, y: Attrs, id: int)
    requires
        t.wf(),
        t.contains_id(j),
    ensures
        t.updated(j, y).wf(),
        t.updated(j, y).lookup(id) == if id == j { Some(y) } else { t.lookup(id) },
{
    let u = t.updated(j, y);
    let p = t.index_of(j);
    assert forall|i: int| 0 <= i < u.rows.len() implies #[trigger] u.rows[i].id == t.rows[i].id by {}
    assert(u.wf());
    if id == j {
        lemma_index_of(u, p);
    } else if t.contains_id(id) {
        let i = t.index_of(id);
        lemma_index_of(t, i);
        lemma_index_of(u, i);
    } else {
        assert(!u.contains_id(id)) by {
            if u.contains_id(id) {
                let k = u.index_of(id);
                assert(t.rows[k].id == id);
            }
        }
    }
}

/// A delete keeps the table well formed; nothing is found under the deleted
/// identifier afterwards, and every other lookup is unchanged.
pub proof fn lemma_lookup_deleted(t: TableView, j: int, id: int)
    requires
        t.wf(),
        t.contains_id(j),
    ensures
        t.deleted(j).wf(),
        t.deleted(j).lookup(id) == if id == j { None } else { t.lookup(id) },
{
    let d = t.deleted(j);
    let p = t.index_of(j);
    assert forall|k: int| 0 <= k < d.rows.len() implies #[trigger] d.rows[k] == t.rows[
        if k < p { k } else { k + 1 }
    ] by {}
    assert forall|a: int, b: int| 0 <= a < b < d.rows.len() implies #[trigger] d.rows[a].id
        < #[trigger] d.rows[b].id by {
        let a0 = if a < p { a } else { a + 1 };
        let b0 = if b < p { b } else { b + 1 };
        assert(t.rows[a0].id < t.rows[b0].id);
    }
    assert forall|k: int| 0 <= k < d.rows.len() implies 1 <= #[trigger] d.rows[k].id < d.next_id by {
        let k0 = if k < p { k } else { k + 1 };
        assert(t.rows[k0] == d.rows[k]);
    }
    assert(d.wf());
    if t.contains_id(id) && id != j {
        let i = t.index_of(id);
        lemma_index_of(t, i);
        let k = if i < p { i } else { i - 1 };
        assert(d.rows[k] == t.rows[i]);
        lemma_index_of(d, k);
    } else {
        assert(!d.contains_id(id)) by {
            if d.contains_id(id) {
                let k = d.index_of(id);
                let k0 = if k < p { k } else { k + 1 };
                assert(t.rows[k0].id == id);
                lemma_index_of(t, k0);
                lemma_index_of(t, p);
            }
        }
    }
}

/// Every operation keeps the table well formed, and changes what is found
/// under `id` only where it writes `id`.
pub proof fn lemma_lookup_apply(t: TableView, op: Op, id: int)
    requires
        t.wf(),
    ensures
        t.apply(op).wf(),
        t.apply(op).lookup(id) == match op {
            Op::Create(x) => if t.can_create() && t.next_id == id { Some(x) } else { t.lookup(id) },
            Op::Update(j, y) => if j == id && t.contains_id(id) { Some(y) } else { t.lookup(id) },
            Op::Delete(j) => if j == id && t.contains_id(id) { None } else { t.lookup(id) },
        },
{
    match op {
        Op::Create(x) => if t.can_create() {
            lemma_lookup_created(t, x, id);
        },
        Op::Update(j, y) => if t.contains_id(j) {
            lemma_lookup_updated(t, j, y, id);
        },
        Op::Delete(j) => if t.contains_id(j) {
            lemma_lookup_deleted(t, j, id);
        },
    }
}

/// Any run of operations keeps the table well formed.
pub proof fn lemma_run_wf(t: TableView, ops: Seq<Op>)
    requires
        t.wf(),
    ensures
        t.run(ops).wf(),
    decreases ops.len(),
{
    if ops.len() > 0 {
        lemma_run_wf(t, ops.drop_last());
        lemma_lookup_apply(t.run(ops.drop_last()), ops.last(), 0);
    }
}

/// After any run of creates, updates and deletes, a read of an identifier
/// finds exactly what the last create or update of it wrote, and nothing once
/// it has been deleted.
pub proof fn law_get_returns_last_write(t: TableView, ops: Seq<Op>, id: int)
    requires
        t.wf(),
    ensures
        t.run(ops).lookup(id) == last_write(t, ops, id),
        view_reply(t.run(ops), id) == match last_write(t, ops, id) {
            Some(a) => ReplyView { status: 200, body: BodyView::Record(CrateView { id, attrs: a }) },
            None => failure_view(),
        },
    decreases ops.len(),
{
    if ops.len() > 0 {
        law_get_returns_last_write(t, ops.drop_last(), id);
        lemma_run_wf(t, ops.drop_last());
        lemma_lookup_apply(t.run(ops.drop_last()), ops.last(), id);
    }
}

/// A listing holds at most `limit` records.
pub proof fn law_list_is_bounded(t: TableView, limit: nat)
    ensures
        t.listed(limit).len() <= limit,
{
}

/// After a create succeeds, a read of the identifier it handed out finds a
/// record with that identifier and the created attributes.
pub proof fn law_get_after_create(t: TableView, x: Attrs)
    requires
        t.wf(),
        t.can_create(),
    ensures
        view_reply(t.created(x), t.next_id) == (ReplyView {
            status: 200,
            body: BodyView::Record(CrateView { id: t.next_id, attrs: x }),
        }),
{
    lemma_lookup_created(t, x, t.next_id);
}

/// After an update of `id` succeeds, a read of `id` finds the new attributes
/// under the same identifier.
pub proof fn law_get_after_update(t: TableView, id: int, y: Attrs)
    requires
        t.wf(),
        t.contains_id(id),
    ensures
        view_reply(t.updated(id, y), id) == (ReplyView {
            status: 200,
            body: BodyView::Record(CrateView { id, attrs: y }),
        }),
{
    lemma_lookup_updated(t, id, y, id);
}

/// After a delete of `id`, a read of `id` fails.
pub proof fn law_get_after_delete(t: TableView, id: int)
    requires
        t.wf(),
    ensures
        view_reply(t.apply(Op::Delete(id)), id) == failure_view(),
{
    lemma_lookup_apply(t, Op::Delete(id), id);
}

/// A second delete of the same identifier fails and changes nothing, and
/// deleting one identifier, once or repeatedly, leaves every other record as
/// it was.
pub proof fn law_delete_is_idempotent(t: TableView, id: int, other: int)
    requires
        t.wf(),
        other != id,
    ensures
        !t.apply(Op::Delete(id)).contains_id(id),
        t.apply(Op::Delete(id)).apply(Op::Delete(id)) == t.apply(Op::Delete(id)),
        t.apply(Op::Delete(id)).apply(Op::Delete(id)).lookup(other) == t.lookup(other),
{
    let once = t.apply(Op::Delete(id));
    lemma_lookup_apply(t, Op::Delete(id), id);
    lemma_lookup_apply(t, Op::Delete(id), other);
}

} // verus!
