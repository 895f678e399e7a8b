use vstd::prelude::*;

use crate::error::{AppError, ErrorKind, status_of};
use crate::store::{
    after_change, after_complete, after_create, after_remove, ids_exhausted, is_listing,
    RAMTodoList, StoreView,
};
use crate::task::{Task, views};

verus! {

/// HTTP status of a request that was carried out.
pub const STATUS_OK: u16 = 200;

/// HTTP status of a create that was carried out.
pub const STATUS_CREATED: u16 = 201;

/// One request to the store, already checked for shape.
#[derive(Debug, Clone, PartialEq, Eq)]
pub enum Request {
    Create(String),
    List,
    Update(u32, String),
    Complete(u32),
    Delete(u32),
}

/// The answer to one request.
#[derive(Debug, Clone, PartialEq, Eq)]
pub enum Reply {
    /// A task was created under this id.
    Created(u32),
    /// The tasks, in ascending id order.
    Tasks(Vec<Task>),
    /// A change, completion or removal was carried out.
    Done,
    /// The request failed and the store is unchanged.
    Failed(AppError),
}

/// The status that a reply is sent with.
pub open spec fn reply_status(r: &Reply) -> u16 {
    match r {
        Reply::Created(_) => STATUS_CREATED,
        Reply::Tasks(_) => STATUS_OK,
        Reply::Done => STATUS_OK,
        Reply::Failed(e) => status_of(e.kind),
    }
}

/// The outcome of `req` on a store in state `s`: the reply `r`, and `t`, the
/// state afterwards. Each request runs exactly one store operation.
pub open spec fn handled(s: StoreView, req: Request, r: Reply, t: StoreView) -> bool {
    match req {
        Request::Create(d) => if ids_exhausted(s) {
            r == Reply::Failed(AppError { kind: ErrorKind::Internal }) && t == s
        } else {
            r == Reply::Created(s.next_id as u32) && t == after_create(s, d@)
        },
        Request::List => t == s && match r {
            Reply::Tasks(v) => is_listing(views(v@), s.tasks),
            _ => false,
        },
        Request::Update(id, d) => if s.tasks.contains_key(id) {
            r == Reply::Done && t == after_change(s, id, d@)
        } else {
            r == Reply::Failed(AppError { kind: ErrorKind::NotFound(id) }) && t == s
        },
        Request::Complete(id) => if s.tasks.contains_key(id) {
            r == Reply::Done && t == after_complete(s, id)
        } else {
            r == Reply::Failed(AppError { kind: ErrorKind::NotFound(id) }) && t == s
        },
        Request::Delete(id) => if s.tasks.contains_key(id) {
            r == Reply::Done && t == after_remove(s, id)
        } else {
            r == Reply::Failed(AppError { kind: ErrorKind::NotFound(id) }) && t == s
        },
    }
}

impl Reply {
    /// The HTTP status that this reply is sent with.
    pub fn status_code(&self) -> (s: u16)
        ensures
            s == reply_status(self),
    {
        match self {
            Reply::Created(_) => STATUS_CREATED,
            Reply::Tasks(_) => STATUS_OK,
            Reply::Done => STATUS_OK,
            Reply::Failed(e) => e.status_code(),
        }
    }
}

/// The reply for an operation that returns nothing on success.
pub fn unit_reply(r: Result<(), AppError>) -> (out: Reply)
    ensures
        r is Ok ==> out == Reply::Done,
        r is Err ==> out == Reply::Failed(r->Err_0),
{
    match r {
        Ok(()) => Reply::Done,
        Err(e) => Reply::Failed(e),
    }
}

/// The reply for a change, completion or removal of task `id` that a backend
/// reported as touching `rows` records: none means there was no such task.
pub fn affected_reply(rows: u64, id: u32) -> (out: Reply)
    ensures
        rows == 0 ==> out == Reply::Failed(AppError { kind: ErrorKind::NotFound(id) }),
        rows > 0 ==> out == Reply::Done,
{
    if rows == 0 {
        Reply::Failed(AppError::not_found(id))
    } else {
        Reply::Done
    }
}

impl RAMTodoList {
    /// Carries out one request by exactly one store operation.
    pub fn handle(&mut self, req: Request) -> (r: Reply)
        requires
            old(self).wf(),
        ensures
            final(self).wf(),
            handled(old(self)@, req, r, final(self)@),
    {
        match req {
            Request::Create(d) => match self.new_task(d) {
                Ok(id) => Reply::Created(id),
                Err(e) => Reply::Failed(e),
            },
            Request::List => Reply::Tasks(self.get_tasks()),
            Request::Update(id, d) => unit_reply(self.change_task(id, d)),
            Request::Complete(id) => unit_reply(self.mark_completed(id)),
            Request::Delete(id) => unit_reply(self.remove_task(id)),
        }
    }
}

} // verus!
