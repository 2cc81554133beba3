use vstd::prelude::*;

verus! {

/// The outcome of a function call that a request waits for: whether it has completed,
/// its result text, and the waker of the task that waits (`W`).
pub struct FuncResult<W> {
    completed: bool,
    result: Option<String>,
    waker: Option<W>,
}

impl<W> FuncResult<W> {
    pub closed spec fn completed_of(self) -> bool {
        self.completed
    }

    /// The result text, as characters.
    pub closed spec fn result_of(self) -> Option<Seq<char>> {
        match self.result {
            Some(s) => Some(s@),
            None => None,
        }
    }

    pub closed spec fn waker_of(self) -> Option<W> {
        self.waker
    }

    /// Nothing completed, no result, nobody waiting.
    pub fn new() -> (r: FuncResult<W>)
        ensures
            !r.completed_of(),
            r.result_of() is None,
            r.waker_of() is None,
    {
        FuncResult { completed: false, result: None, waker: None }
    }

    /// Marks the call completed and hands back the waker of the waiting task, if any,
    /// to be woken.
    pub fn set_completed(&mut self) -> (r: Option<W>)
        ensures
            final(self).completed_of(),
            r == old(self).waker_of(),
            final(self).waker_of() is None,
            final(self).result_of() == old(self).result_of(),
    {
        self.completed = true;
        self.waker.take()
    }

    /// Stores the result text, replacing any earlier one.
    pub fn set_result(&mut self, str: &str)
        ensures
            final(self).result_of() == Some(str@),
            final(self).completed_of() == old(self).completed_of(),
            final(self).waker_of() == old(self).waker_of(),
    {
        self.result = Some(str.to_owned());
    }

    /// Polls the outcome: once completed, the result text; before that, `waker` is
    /// kept to be woken at completion and nothing comes back.
    pub fn poll_result(&mut self, waker: W) -> (r: Option<String>)
        requires
            old(self).completed_of() ==> old(self).result_of() is Some,
        ensures
            old(self).completed_of() ==> (r matches Some(s) && Some(s@) == old(self).result_of()
                && final(self).waker_of() == old(self).waker_of()),
            !old(self).completed_of() ==> r is None && final(self).waker_of() == Some(waker),
            final(self).completed_of() == old(self).completed_of(),
            final(self).result_of() == old(self).result_of(),
    {
        if self.completed {
            match &self.result {
                Some(s) => Some(s.clone()),
                None => None,
            }
        } else {
            self.waker = Some(waker);
            None
        }
    }
}

/// A read after a write: once `set_result(text)` and then `set_completed()` have run,
/// whatever the state before, polling may be called and gives `text` back.
pub proof fn lemma_result_after_completion<W>(
    before: FuncResult<W>,
    written: FuncResult<W>,
    done: FuncResult<W>,
    text: Seq<char>,
)
    requires
        written.result_of() == Some(text),
        written.completed_of() == before.completed_of(),
        written.waker_of() == before.waker_of(),
        done.completed_of(),
        done.waker_of() is None,
        done.result_of() == written.result_of(),
    ensures
        done.completed_of() ==> done.result_of() is Some,
        done.result_of() == Some(text),
{
}

} // verus!
