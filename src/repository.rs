use crate::error::WorkerError;
use crate::worker::ThreadWorker;
use vstd::prelude::*;

verus! {

/// The store that maps worker names to workers: at most one worker per name.
pub struct ThreadWorkerRepositoryImpl<F> {
    thread_worker_list: Vec<ThreadWorker<F>>,
}

/// Whether no two workers of `s` share a name.
pub open spec fn names_unique<F>(s: Seq<ThreadWorker<F>>) -> bool {
    forall|i: int, j: int|
        0 <= i < s.len() && 0 <= j < s.len() && i != j ==> #[trigger] s[i].spec_name()
            != #[trigger] s[j].spec_name()
}

/// Whether some worker of `s` is named `k`.
pub open spec fn has_name<F>(s: Seq<ThreadWorker<F>>, k: Seq<char>) -> bool {
    exists|i: int| 0 <= i < s.len() && #[trigger] s[i].spec_name() == k
}

/// The map from each name in `s` to the behavior of the worker so named.
pub open spec fn entries_of<F>(s: Seq<ThreadWorker<F>>) -> Map<Seq<char>, Option<F>> {
    Map::new(
        |k: Seq<char>| has_name(s, k),
        |k: Seq<char>| s[choose|i: int| 0 <= i < s.len() && #[trigger] s[i].spec_name() == k].spec_function(),
    )
}

/// In a sequence with unique names, the entry for a worker's name is that
/// worker's behavior.
proof fn lemma_entry_at<F>(s: Seq<ThreadWorker<F>>, i: int)
    requires
        names_unique(s),
        0 <= i < s.len(),
    ensures
        entries_of(s).contains_key(s[i].spec_name()),
        entries_of(s)[s[i].spec_name()] == s[i].spec_function(),
{
    let k = s[i].spec_name();
    assert(has_name(s, k));
    let j = choose|j: int| 0 <= j < s.len() && #[trigger] s[j].spec_name() == k;
    assert(i == j);
}

/// A store of workers keyed by name.
pub trait ThreadWorkerRepositoryTrait<F> {
    /// The behavior stored under each registered name.
    spec fn entries(&self) -> Map<Seq<char>, Option<F>>;

    /// Stores a worker named `name` with the given behavior, replacing any
    /// worker that was stored under that name.
    fn save_thread_worker(&mut self, name: &str, will_be_execute_function: Option<F>)
        ensures
            final(self).entries() == old(self).entries().insert(name@, will_be_execute_function),
    ;
}

/// Whether the behavior stored under `name` in `entries`, if any, accepts a
/// call with no arguments.
pub open spec fn behavior_callable<F: Fn() -> R, R>(entries: Map<Seq<char>, Option<F>>, name: Seq<char>) -> bool {
    entries.contains_key(name) && entries[name] is Some ==> entries[name]->0.requires(())
}

/// What starting `name` over `entries` may return: `NotFound` exactly when no
/// worker has that name, `NoBehavior` exactly when its worker has no
/// behavior, and otherwise an operation that one call of that behavior
/// produced.
pub open spec fn started<F: Fn() -> R, R>(
    entries: Map<Seq<char>, Option<F>>,
    name: Seq<char>,
    r: Result<R, WorkerError>,
) -> bool {
    if !entries.contains_key(name) {
        r == Err::<R, WorkerError>(WorkerError::NotFound)
    } else {
        match entries[name] {
            None => r == Err::<R, WorkerError>(WorkerError::NoBehavior),
            Some(f) => r matches Ok(op) && f.ensures((), op),
        }
    }
}

impl<F> View for ThreadWorkerRepositoryImpl<F> {
    type V = Map<Seq<char>, Option<F>>;

    closed spec fn view(&self) -> Map<Seq<char>, Option<F>> {
        entries_of(self.thread_worker_list@)
    }
}

impl<F> ThreadWorkerRepositoryImpl<F> {
    #[verifier::type_invariant]
    spec fn inv(&self) -> bool {
        names_unique(self.thread_worker_list@)
    }

    /// An empty registry.
    pub fn new() -> (r: Self)
        ensures
            r@ == Map::<Seq<char>, Option<F>>::empty(),
    {
        let r = ThreadWorkerRepositoryImpl { thread_worker_list: Vec::new() };
        assert(r@ =~= Map::<Seq<char>, Option<F>>::empty());
        r
    }

    /// Where the worker named `name` stands in the list, if anywhere.
    fn index_of(&self, name: &String) -> (r: Option<usize>)
        ensures
            match r {
                Some(i) => i < self.thread_worker_list@.len()
                    && self.thread_worker_list@[i as int].spec_name() == name@,
                None => !has_name(self.thread_worker_list@, name@),
            },
    {
        let mut i: usize = 0;
        while i < self.thread_worker_list.len()
            invariant
                i <= self.thread_worker_list@.len(),
                forall|j: int| 0 <= j < i ==> #[trigger] self.thread_worker_list@[j].spec_name() != name@,
            decreases self.thread_worker_list@.len() - i,
        {
            if self.thread_worker_list[i].is_named(name) {
                return Some(i);
            }
            i = i + 1;
        }
        None
    }

    /// Resolves the worker named `name` and invokes its behavior once,
    /// handing back the in-flight operation that the call produced; the
    /// caller drives it to completion after this returns, so the registry is
    /// never held while the operation runs.
    pub fn start_thread_worker<R>(&self, name: &str) -> (r: Result<R, WorkerError>) where
        F: Fn() -> R,
        requires
            behavior_callable(self@, name@),
        ensures
            started(self@, name@, r),
    {
        proof { use_type_invariant(self); }
        let key = name.to_string();
        match self.index_of(&key) {
            Some(i) => {
                proof { lemma_entry_at(self.thread_worker_list@, i as int); }
                match self.thread_worker_list[i].get_will_be_execute_function() {
                    Some(a) => {
                        let g: &F = &**a;
                        let op = g();
                        Ok(op)
                    },
                    None => Err(WorkerError::NoBehavior),
                }
            },
            None => Err(WorkerError::NotFound),
        }
    }

    /// A second handle to the worker named `name`, if one is stored.
    pub fn find_by_name(&self, name: &str) -> (r: Option<ThreadWorker<F>>)
        ensures
            match r {
                Some(w) => self@.contains_key(name@) && w.spec_name() == name@
                    && w.spec_function() == self@[name@],
                None => !self@.contains_key(name@),
            },
    {
        proof { use_type_invariant(self); }
        let key = name.to_string();
        match self.index_of(&key) {
            Some(i) => {
                proof { lemma_entry_at(self.thread_worker_list@, i as int); }
                Some(self.thread_worker_list[i].duplicate())
            },
            None => None,
        }
    }
}

/// Saving under one name twice leaves the registry as if only the second
/// save had happened: the last behavior saved under a name is the one found.
pub proof fn lemma_last_save_wins<F>(
    repo: ThreadWorkerRepositoryImpl<F>,
    name: Seq<char>,
    first: Option<F>,
    second: Option<F>,
)
    ensures
        repo@.insert(name, first).insert(name, second) == repo@.insert(name, second),
        repo@.insert(name, first).insert(name, second).contains_key(name),
        repo@.insert(name, first).insert(name, second)[name] == second,
{
    assert(repo@.insert(name, first).insert(name, second) =~= repo@.insert(name, second));
}

/// Starting a name that was never saved yields `NotFound`, never an
/// operation.
pub proof fn lemma_absent_not_found<F: Fn() -> R, R>(
    repo: ThreadWorkerRepositoryImpl<F>,
    name: Seq<char>,
    r: Result<R, WorkerError>,
)
    requires
        !repo@.contains_key(name),
        started(repo@, name, r),
    ensures
        r == Err::<R, WorkerError>(WorkerError::NotFound),
{
}

/// Saving a name with no behavior and then starting it yields `NoBehavior`.
pub proof fn lemma_no_behavior<F: Fn() -> R, R>(
    repo: ThreadWorkerRepositoryImpl<F>,
    name: Seq<char>,
    r: Result<R, WorkerError>,
)
    requires
        started(repo@.insert(name, None), name, r),
    ensures
        r == Err::<R, WorkerError>(WorkerError::NoBehavior),
{
}

/// Saving a behavior and then starting its name is allowed, succeeds, and
/// hands back an operation that one call of that same behavior produced.
pub proof fn lemma_save_then_start<F: Fn() -> R, R>(
    repo: ThreadWorkerRepositoryImpl<F>,
    name: Seq<char>,
    f: F,
    r: Result<R, WorkerError>,
)
    requires
        f.requires(()),
    ensures
        behavior_callable(repo@.insert(name, Some(f)), name),
        started(repo@.insert(name, Some(f)), name, r) ==> (r matches Ok(op) && f.ensures(
            (),
            op,
        )),
{
}

impl<F> ThreadWorkerRepositoryTrait<F> for ThreadWorkerRepositoryImpl<F> {
    open spec fn entries(&self) -> Map<Seq<char>, Option<F>> {
        self@
    }

    fn save_thread_worker(&mut self, name: &str, will_be_execute_function: Option<F>)
        ensures
            final(self)@ == old(self)@.insert(name@, will_be_execute_function),
    {
        proof { use_type_invariant(&*self); }
        let ghost f = will_be_execute_function;
        let key = name.to_string();
        let worker = ThreadWorker::new(name, will_be_execute_function);
        let found = self.index_of(&key);
        let mut list: Vec<ThreadWorker<F>> = Vec::new();
        std::mem::swap(&mut list, &mut self.thread_worker_list);
        let ghost old_list = list@;
        match found {
            Some(i) => {
                list.set(i, worker);
            },
            None => {
                list.push(worker);
            },
        }
        let ghost new_list = list@;
        assert(names_unique(new_list)) by {
            assert forall|a: int, b: int|
                0 <= a < new_list.len() && 0 <= b < new_list.len() && a != b implies
                #[trigger] new_list[a].spec_name() != #[trigger] new_list[b].spec_name() by {
                if found is None {
                    if a == new_list.len() - 1 {
                        assert(old_list[b] == new_list[b]);
                    } else if b == new_list.len() - 1 {
                        assert(old_list[a] == new_list[a]);
                    } else {
                        assert(old_list[a] == new_list[a]);
                        assert(old_list[b] == new_list[b]);
                    }
                }
            }
        }
        assert(entries_of(new_list) =~= entries_of(old_list).insert(name@, f)) by {
            assert forall|k: Seq<char>| #[trigger] entries_of(new_list).contains_key(k)
                <==> entries_of(old_list).insert(name@, f).contains_key(k) by {
                if has_name(new_list, k) {
                    let j = choose|j: int| 0 <= j < new_list.len() && #[trigger] new_list[j].spec_name() == k;
                    if k != name@ {
                        assert(old_list[j] == new_list[j]);
                    }
                }
                if has_name(old_list, k) {
                    let j = choose|j: int| 0 <= j < old_list.len() && #[trigger] old_list[j].spec_name() == k;
                    if k != name@ {
                        assert(old_list[j] == new_list[j]);
                    }
                }
                if k == name@ {
                    let w = match found { Some(i) => i as int, None => old_list.len() as int };
                    assert(new_list[w].spec_name() == k);
                }
            }
            assert forall|k: Seq<char>| #[trigger] entries_of(new_list).contains_key(k) implies
                entries_of(new_list)[k] == entries_of(old_list).insert(name@, f)[k] by {
                let j = choose|j: int| 0 <= j < new_list.len() && #[trigger] new_list[j].spec_name() == k;
                lemma_entry_at(new_list, j);
                if k != name@ {
                    assert(old_list[j] == new_list[j]);
                    lemma_entry_at(old_list, j);
                }
            }
        }
        self.thread_worker_list = list;
    }
}

} // verus!
