use std::sync::Arc;
use vstd::prelude::*;

verus! {

/// A named unit of deferred work.
///
/// The behavior, when present, is held behind a shared handle so that the
/// registry's copy and any copy handed to a caller refer to one allocation.
pub struct ThreadWorker<F> {
    name: String,
    will_be_execute_function: Option<Arc<F>>,
}

impl<F> ThreadWorker<F> {
    /// The worker's name.
    pub closed spec fn spec_name(&self) -> Seq<char> {
        self.name@
    }

    /// The worker's behavior, if one was assigned.
    pub closed spec fn spec_function(&self) -> Option<F> {
        match self.will_be_execute_function {
            Some(a) => Some(*a),
            None => None,
        }
    }

    /// Builds a worker named `name` whose behavior is `will_be_execute_function`.
    pub fn new(name: &str, will_be_execute_function: Option<F>) -> (r: Self)
        ensures
            r.spec_name() == name@,
            r.spec_function() == will_be_execute_function,
    {
        let f = match will_be_execute_function {
            Some(g) => Some(Arc::new(g)),
            None => None,
        };
        ThreadWorker { name: name.to_string(), will_be_execute_function: f }
    }

    pub fn name(&self) -> (r: &str)
        ensures
            r@ == self.spec_name(),
    {
        self.name.as_str()
    }

    /// Whether this worker is named `name`.
    pub fn is_named(&self, name: &String) -> (r: bool)
        ensures
            r == (self.spec_name() == name@),
    {
        self.name == *name
    }

    /// A second handle to this worker: the name is copied and the behavior
    /// handle is shared, not the behavior duplicated.
    pub fn duplicate(&self) -> (r: Self)
        ensures
            r.spec_name() == self.spec_name(),
            r.spec_function() == self.spec_function(),
    {
        let f = match &self.will_be_execute_function {
            Some(a) => Some(share_handle(a)),
            None => None,
        };
        ThreadWorker { name: self.name.clone(), will_be_execute_function: f }
    }

    /// Identity comparison: equal names, and either no behavior on both sides
    /// or one shared behavior allocation. Two separately built behaviors are
    /// never the same, whatever they do.
    pub fn same_as(&self, other: &Self) -> (r: bool)
        ensures
            r ==> self.spec_name() == other.spec_name() && self.spec_function()
                == other.spec_function(),
            self.spec_function() is None || other.spec_function() is None ==> (r <==> (
            self.spec_name() == other.spec_name() && self.spec_function() is None
                && other.spec_function() is None)),
    {
        if self.name != other.name {
            return false;
        }
        match (&self.will_be_execute_function, &other.will_be_execute_function) {
            (Some(a), Some(b)) => same_allocation(a, b),
            (None, None) => true,
            _ => false,
        }
    }

    pub fn get_will_be_execute_function(&self) -> (r: Option<&Arc<F>>)
        ensures
            match r {
                Some(a) => self.spec_function() == Some(**a),
                None => self.spec_function() is None,
            },
    {
        self.will_be_execute_function.as_ref()
    }
}

impl<F> AsRef<str> for ThreadWorker<F> {
    fn as_ref(&self) -> &str {
        self.name.as_str()
    }
}

/// Relies on `Arc::clone`: the new handle points at the same allocation as
/// `a`, so it holds the same value.
#[verifier::external_body]
fn share_handle<F>(a: &Arc<F>) -> (r: Arc<F>)
    ensures
        r == *a,
{
    Arc::clone(a)
}

/// Relies on `Arc::ptr_eq`: two handles to one allocation hold one value.
#[verifier::external_body]
fn same_allocation<F>(a: &Arc<F>, b: &Arc<F>) -> (r: bool)
    ensures
        r ==> *a == *b,
{
    Arc::ptr_eq(a, b)
}

} // verus!
