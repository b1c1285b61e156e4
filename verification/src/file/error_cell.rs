use vstd::prelude::*;

verus! {

/// The first failure of a job. Many workers may try to fill it; it keeps
/// what came first and drops the rest.
pub struct ErrorCell<E> {
    first: Option<E>,
}

impl<E> View for ErrorCell<E> {
    type V = Option<E>;

    closed spec fn view(&self) -> Option<E> {
        self.first
    }
}

/// The cell after `error` was reported to it.
pub open spec fn record<E>(cell: Option<E>, error: E) -> Option<E> {
    match cell {
        Some(first) => Some(first),
        None => Some(error),
    }
}

/// The cell after each of `errors` was reported to it, in their order.
pub open spec fn record_all<E>(cell: Option<E>, errors: Seq<E>) -> Option<E>
    decreases errors.len(),
{
    if errors.len() == 0 {
        cell
    } else {
        record(record_all(cell, errors.drop_last()), errors.last())
    }
}

/// How a job ends: with its first failure if there was one, else with what
/// flushing the output gave. Only `Ok` lets the output take its place.
pub open spec fn verdict<E>(cell: Option<E>, flushed: Result<(), E>) -> Result<(), E> {
    match cell {
        Some(first) => Err(first),
        None => flushed,
    }
}

impl<E> ErrorCell<E> {
    /// A cell that holds no failure.
    pub fn new() -> (cell: Self)
        ensures
            cell@ is None,
    {
        Self { first: None }
    }

    /// Whether a failure was reported. Workers ask before each block and
    /// leave the block alone once one was.
    pub fn is_set(&self) -> (set: bool)
        ensures
            set == (self@ is Some),
    {
        self.first.is_some()
    }

    /// Reports a failure. It is kept only if it is the first.
    pub fn set(&mut self, error: E)
        ensures
            final(self)@ == record(old(self)@, error),
    {
        if self.first.is_none() {
            self.first = Some(error);
        }
    }

    /// Ends the job: gives the first failure, or what flushing gave.
    pub fn settle(self, flushed: Result<(), E>) -> (end: Result<(), E>)
        ensures
            end == verdict(self@, flushed),
    {
        match self.first {
            Some(first) => Err(first),
            None => flushed,
        }
    }
}

/// The failure that a cell holds is the first that was reported to it, and no
/// later report changes it.
pub proof fn lemma_first_failure_stays<E>(cell: Option<E>, errors: Seq<E>)
    ensures
        record_all(cell, errors) == match cell {
            Some(first) => Some(first),
            None => if errors.len() > 0 {
                Some(errors[0])
            } else {
                None
            },
        },
    decreases errors.len(),
{
    if errors.len() > 0 {
        lemma_first_failure_stays(cell, errors.drop_last());
        if errors.len() > 1 {
            assert(errors.drop_last()[0] == errors[0]);
        }
    }
}

/// A job in which any block failed ends with the first such failure,
/// whatever was reported after it and whatever flushing gave: its output
/// never takes its place.
pub proof fn lemma_failed_job_is_not_renamed<E>(errors: Seq<E>, flushed: Result<(), E>)
    requires
        errors.len() > 0,
    ensures
        verdict(record_all(None, errors), flushed) == Err::<(), E>(errors[0]),
{
    lemma_first_failure_stays(None, errors);
}

} // verus!
