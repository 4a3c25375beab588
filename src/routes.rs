use vstd::prelude::*;

use crate::model::{views, Crate, CrateView, NewCrate};
use crate::table::{CrateTable, TableView};

verus! {

/// `200 OK`.
pub const STATUS_OK: u16 = 200;

/// `201 Created`.
pub const STATUS_CREATED: u16 = 201;

/// `204 No Content`.
pub const STATUS_NO_CONTENT: u16 = 204;

/// `500 Internal Server Error`.
pub const STATUS_INTERNAL_SERVER_ERROR: u16 = 500;

/// How many records a listing holds at most.
pub const LIST_LIMIT: usize = 100;

/// What a reply carries, before it is encoded as JSON.
#[derive(Debug, PartialEq, Eq)]
pub enum Body {
    /// No body at all.
    Empty,
    /// One record, encoded as a JSON object.
    Record(Crate),
    /// Records, encoded as a JSON array of objects.
    Records(Vec<Crate>),
    /// A message, encoded as a JSON string.
    Message(String),
}

/// An HTTP reply: a status code and a body.
#[derive(Debug, PartialEq, Eq)]
pub struct Reply {
    pub status: u16,
    pub body: Body,
}

pub enum BodyView {
    Empty,
    Record(CrateView),
    Records(Seq<CrateView>),
    Message(Seq<char>),
}

pub struct ReplyView {
    pub status: int,
    pub body: BodyView,
}

impl View for Body {
    type V = BodyView;

    open spec fn view(&self) -> BodyView {
        match self {
            Body::Empty => BodyView::Empty,
            Body::Record(c) => BodyView::Record(c@),
            Body::Records(v) => BodyView::Records(views(v@)),
            Body::Message(m) => BodyView::Message(m@),
        }
    }
}

impl View for Reply {
    type V = ReplyView;

    open spec fn view(&self) -> ReplyView {
        ReplyView { status: self.status as int, body: self.body@ }
    }
}

/// The reply to any failed operation: a 500 whose body is the string `"Error"`,
/// which tells the client nothing of the storage.
pub open spec fn failure_view() -> ReplyView {
    ReplyView { status: 500, body: BodyView::Message("Error"@) }
}

/// The reply that lists `t`.
pub open spec fn list_reply(t: TableView) -> ReplyView {
    ReplyView { status: 200, body: BodyView::Records(t.listed(LIST_LIMIT as nat)) }
}

/// The reply to a read of record `id` in `t`.
pub open spec fn view_reply(t: TableView, id: int) -> ReplyView {
    match t.lookup(id) {
        Some(a) => ReplyView { status: 200, body: BodyView::Record(CrateView { id, attrs: a }) },
        None => failure_view(),
    }
}

fn failure() -> (r: Reply)
    ensures
        r@ == failure_view(),
{
    Reply { status: STATUS_INTERNAL_SERVER_ERROR, body: Body::Message("Error".to_owned()) }
}

/// `GET /crates`: the first records of the table, at most `LIST_LIMIT` of them.
pub fn get_crates(table: &CrateTable) -> (r: Reply)
    requires
        table.wf(),
    ensures
        r@ == list_reply(table@),
        r.body matches Body::Records(v) && v@.len() <= LIST_LIMIT,
{
    let v = table.find_multiple(LIST_LIMIT);
    Reply { status: STATUS_OK, body: Body::Records(v) }
}

/// `GET /crates/<id>`: the record `id`, or a failure where there is none.
pub fn view_crate(table: &CrateTable, id: i32) -> (r: Reply)
    requires
        table.wf(),
    ensures
        r@ == view_reply(table@, id as int),
{
    match table.find(id) {
        Ok(c) => Reply { status: STATUS_OK, body: Body::Record(c) },
        Err(_) => failure(),
    }
}

/// `POST /crates`: stores `new_crate` under a fresh identifier and answers
/// `201` with the stored record.
pub fn create_crate(table: &mut CrateTable, new_crate: NewCrate) -> (r: Reply)
    requires
        old(table).wf(),
    ensures
        final(table).wf(),
        if old(table)@.can_create() {
            &&& final(table)@ == old(table)@.created(new_crate@)
            &&& r@ == ReplyView {
                status: 201,
                body: BodyView::Record(CrateView { id: old(table)@.next_id, attrs: new_crate@ }),
            }
        } else {
            final(table)@ == old(table)@ && r@ == failure_view()
        },
{
    match table.create(new_crate) {
        Ok(c) => Reply { status: STATUS_CREATED, body: Body::Record(c) },
        Err(_) => failure(),
    }
}

/// `PUT /crates/<id>`: gives the record `id` the attributes of `a_crate`. The
/// identifier in the path selects the record; the one in `a_crate` is ignored.
pub fn update_crate(table: &mut CrateTable, id: i32, a_crate: Crate) -> (r: Reply)
    requires
        old(table).wf(),
    ensures
        final(table).wf(),
        if old(table)@.contains_id(id as int) {
            &&& final(table)@ == old(table)@.updated(id as int, a_crate@.attrs)
            &&& r@ == ReplyView {
                status: 200,
                body: BodyView::Record(CrateView { id: id as int, attrs: a_crate@.attrs }),
            }
        } else {
            final(table)@ == old(table)@ && r@ == failure_view()
        },
{
    match table.update(id, a_crate) {
        Ok(c) => Reply { status: STATUS_OK, body: Body::Record(c) },
        Err(_) => failure(),
    }
}

/// `DELETE /crates/<id>`: removes the record `id` and answers `204` with no body.
pub fn delete_crate(table: &mut CrateTable, id: i32) -> (r: Reply)
    requires
        old(table).wf(),
    ensures
        final(table).wf(),
        if old(table)@.contains_id(id as int) {
            &&& final(table)@ == old(table)@.deleted(id as int)
            &&& r@ == ReplyView { status: 204, body: BodyView::Empty }
        } else {
            final(table)@ == old(table)@ && r@ == failure_view()
        },
{
    match table.delete(id) {
        Ok(()) => Reply { status: STATUS_NO_CONTENT, body: Body::Empty },
        Err(_) => failure(),
    }
}

} // verus!
