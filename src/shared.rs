use vstd::prelude::*;
use vstd::rwlock::{RwLock, RwLockPredicate};

use crate::error::{AppError, ErrorKind};
use crate::gateway::{Reply, Request};
use crate::store::{RAMTodoList, ascending_ids, is_listing, store_inv, StoreView};
use crate::task::{Task, views};

verus! {

/// What the lock keeps true of the store it guards.
pub struct WellFormed;

impl RwLockPredicate<RAMTodoList> for WellFormed {
    open spec fn inv(self, s: RAMTodoList) -> bool {
        s.wf()
    }
}

/// A task store that many threads may share. Every operation holds the lock
/// for its whole duration: writers exclusively, readers together. So each
/// operation sees and leaves a well-formed store, and no reader sees a task
/// half changed. A thread that finds the lock taken waits for it. The id
/// counter lives with the tasks and advances under the same exclusive hold as
/// the insertion, so two creates can never draw the same id.
pub struct TodoList {
    lock: RwLock<RAMTodoList, WellFormed>,
}

/// What holds of a reply to `req`, whatever other threads did meanwhile.
pub open spec fn reply_fits(req: Request, r: Reply) -> bool {
    match req {
        Request::Create(_) => r is Created || r == Reply::Failed(
            AppError { kind: ErrorKind::Internal },
        ),
        Request::List => match r {
            Reply::Tasks(v) => ascending_ids(views(v@)),
            _ => false,
        },
        Request::Update(id, _) | Request::Complete(id) | Request::Delete(id) => r is Done || r
            == Reply::Failed(AppError { kind: ErrorKind::NotFound(id) }),
    }
}

impl TodoList {
    #[verifier::type_invariant]
    spec fn guards_wf(&self) -> bool {
        self.lock.pred() == WellFormed
    }

    /// An empty shared store.
    pub fn new() -> (t: TodoList) {
        TodoList { lock: RwLock::new(RAMTodoList::new(), Ghost(WellFormed)) }
    }

    /// Adds a task and returns its id; fails only with `Internal`, once the
    /// ids have run out.
    pub fn new_task(&self, description: String) -> (r: Result<u32, AppError>)
        ensures
            r is Err ==> r->Err_0.kind == ErrorKind::Internal,
    {
        proof {
            use_type_invariant(self);
        }
        let (mut store, handle) = self.lock.acquire_write();
        let r = store.new_task(description);
        handle.release_write(store);
        r
    }

    /// The tasks as they stood at one moment, in ascending id order.
    pub fn get_tasks(&self) -> (r: Vec<Task>)
        ensures
            ascending_ids(views(r@)),
            exists|s: StoreView| store_inv(s) && is_listing(views(r@), s.tasks),
    {
        proof {
            use_type_invariant(self);
        }
        let handle = self.lock.acquire_read();
        let store = handle.borrow();
        let r = store.get_tasks();
        proof {
            assert(store_inv(store@));
        }
        handle.release_read();
        r
    }

    /// Changes the text of task `id` and clears its flag; fails only with
    /// `NotFound(id)`.
    pub fn change_task(&self, id: u32, description: String) -> (r: Result<(), AppError>)
        ensures
            r is Err ==> r->Err_0.kind == ErrorKind::NotFound(id),
    {
        proof {
            use_type_invariant(self);
        }
        let (mut store, handle) = self.lock.acquire_write();
        let r = store.change_task(id, description);
        handle.release_write(store);
        r
    }

    /// Marks task `id` completed; fails only with `NotFound(id)`.
    pub fn mark_completed(&self, id: u32) -> (r: Result<(), AppError>)
        ensures
            r is Err ==> r->Err_0.kind == ErrorKind::NotFound(id),
    {
        proof {
            use_type_invariant(self);
        }
        let (mut store, handle) = self.lock.acquire_write();
        let r = store.mark_completed(id);
        handle.release_write(store);
        r
    }

    /// Removes task `id`; fails only with `NotFound(id)`.
    pub fn remove_task(&self, id: u32) -> (r: Result<(), AppError>)
        ensures
            r is Err ==> r->Err_0.kind == ErrorKind::NotFound(id),
    {
        proof {
            use_type_invariant(self);
        }
        let (mut store, handle) = self.lock.acquire_write();
        let r = store.remove_task(id);
        handle.release_write(store);
        r
    }

    /// Carries out one request: a listing under the shared lock, anything
    /// else under the exclusive one.
    pub fn handle(&self, req: Request) -> (r: Reply)
        ensures
            reply_fits(req, r),
    {
        proof {
            use_type_invariant(self);
        }
        match req {
            Request::List => Reply::Tasks(self.get_tasks()),
            _ => {
                let (mut store, handle) = self.lock.acquire_write();
                let r = store.handle(req);
                handle.release_write(store);
                r
            },
        }
    }
}

} // verus!
