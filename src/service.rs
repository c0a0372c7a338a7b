use crate::error::WorkerError;
use crate::repository::{
    behavior_callable,
    started,
    ThreadWorkerRepositoryImpl,
    ThreadWorkerRepositoryTrait,
};
use crate::worker::ThreadWorker;
use vstd::prelude::*;

verus! {

/// Registration of behaviors under names.
///
/// Whether a behavior was written as plain blocking code or awaits other
/// operations, it is stored in one shape: a factory of in-flight operations.
pub trait ThreadWorkerServiceTrait<F> {
    /// The behavior stored under each registered name.
    spec fn entries(&self) -> Map<Seq<char>, Option<F>>;

    /// Registers a behavior that awaits other operations.
    fn save_async_thread_worker(&mut self, name: &str, will_be_execute_function: F)
        ensures
            final(self).entries() == old(self).entries().insert(name@, Some(will_be_execute_function)),
    ;

    /// Registers a behavior written as plain blocking code, already adapted
    /// into a factory of resolved operations.
    fn save_sync_thread_worker(&mut self, name: &str, will_be_execute_function: F)
        ensures
            final(self).entries() == old(self).entries().insert(name@, Some(will_be_execute_function)),
    ;
}

/// The façade over one registry: registration, lookup, and the decision part
/// of starting a worker from either execution context.
///
/// Starts of one name are not serialized: each start invokes the behavior
/// once and hands out its own operation, so concurrent starts run
/// independently, and a behavior shared that way must itself be safe to run
/// concurrently.
pub struct ThreadWorkerServiceImpl<F> {
    repository: ThreadWorkerRepositoryImpl<F>,
}

impl<F> View for ThreadWorkerServiceImpl<F> {
    type V = Map<Seq<char>, Option<F>>;

    closed spec fn view(&self) -> Map<Seq<char>, Option<F>> {
        self.repository@
    }
}

impl<F> ThreadWorkerServiceImpl<F> {
    /// A coordinator over `repository`.
    pub fn new(repository: ThreadWorkerRepositoryImpl<F>) -> (r: Self)
        ensures
            r@ == repository@,
    {
        ThreadWorkerServiceImpl { repository }
    }

    /// The registry behind this coordinator.
    pub fn repository(&self) -> (r: &ThreadWorkerRepositoryImpl<F>)
        ensures
            r@ == self@,
    {
        &self.repository
    }

    /// A second handle to the worker named `name`, if one is stored.
    pub fn find_by_name(&self, name: &str) -> (r: Option<ThreadWorker<F>>)
        ensures
            match r {
                Some(w) => self@.contains_key(name@) && w.spec_name() == name@
                    && w.spec_function() == self@[name@],
                None => !self@.contains_key(name@),
            },
    {
        self.repository.find_by_name(name)
    }

    /// The decision half of a blocking start.
    ///
    /// A caller that is already inside the scheduler must not block on it,
    /// so the request is refused with `ReentrantBlock` before anything is
    /// looked up. Otherwise the worker is resolved and its behavior invoked
    /// once; the caller then blocks until the returned operation completes.
    pub fn start_thread_worker<R>(&self, name: &str, inside_scheduler: bool) -> (r: Result<
        R,
        WorkerError,
    >) where F: Fn() -> R
        requires
            behavior_callable(self@, name@),
        ensures
            inside_scheduler ==> r == Err::<R, WorkerError>(WorkerError::ReentrantBlock),
            !inside_scheduler ==> started(self@, name@, r),
    {
        if inside_scheduler {
            return Err(WorkerError::ReentrantBlock);
        }
        self.repository.start_thread_worker(name)
    }

    /// The decision half of a start from inside the scheduler: the worker is
    /// resolved and its behavior invoked once, and the caller awaits the
    /// returned operation as an ordinary suspension point.
    pub fn start_thread_worker_async<R>(&self, name: &str) -> (r: Result<R, WorkerError>) where
        F: Fn() -> R,
        requires
            behavior_callable(self@, name@),
        ensures
            started(self@, name@, r),
    {
        self.repository.start_thread_worker(name)
    }
}

/// A blocking start from outside the scheduler and a start from inside it
/// decide alike on one coordinator: the same error, or for each an operation
/// that one call of the same stored behavior produced.
pub proof fn lemma_bridge_agrees<F: Fn() -> R, R>(
    service: ThreadWorkerServiceImpl<F>,
    name: Seq<char>,
    blocking: Result<R, WorkerError>,
    awaited: Result<R, WorkerError>,
)
    requires
        started(service@, name, blocking),
        started(service@, name, awaited),
    ensures
        blocking is Err <==> awaited is Err,
        blocking is Err ==> blocking == awaited,
        blocking is Ok ==> service@.contains_key(name) && service@[name] is Some && service@[name]->0.ensures(
            (),
            blocking->Ok_0,
        ) && service@[name]->0.ensures((), awaited->Ok_0),
{
}

impl<F> ThreadWorkerServiceTrait<F> for ThreadWorkerServiceImpl<F> {
    open spec fn entries(&self) -> Map<Seq<char>, Option<F>> {
        self@
    }

    fn save_async_thread_worker(&mut self, name: &str, will_be_execute_function: F) {
        self.repository.save_thread_worker(name, Some(will_be_execute_function));
    }

    fn save_sync_thread_worker(&mut self, name: &str, will_be_execute_function: F) {
        self.repository.save_thread_worker(name, Some(will_be_execute_function));
    }
}

} // verus!
