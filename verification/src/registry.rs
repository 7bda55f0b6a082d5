//! The session registry: one live session handle per terminal id.

use vstd::prelude::*;

verus! {

use vstd::string::StringExecFns;
use crate::text::eq_str;

/// A registry operation that referenced a terminal with no live entry.
#[derive(Debug)]
pub enum Error {
    NotFound(String),
}

impl Error {
    /// The short user-facing text for this failure.
    pub fn describe(&self) -> (r: String)
        ensures
            self matches Error::NotFound(id) && r@ == "terminal `"@ + id@ + "` not found"@,
    {
        match self {
            Error::NotFound(id) => {
                let mut r = String::from_str("terminal `");
                r.append(id.as_str());
                r.append("` not found");
                r
            },
        }
    }
}

/// Maps each terminal id to the control handle of its live session.
/// The handle type is opaque to the registry: callers send control
/// messages through it; the registry only stores and hands it out.
pub struct Registry<H> {
    pub entries: Vec<(String, H)>,
}

impl<H> Registry<H> {
    /// Some live entry carries this id.
    pub open spec fn has_id(&self, id: Seq<char>) -> bool {
        exists|i: int| 0 <= i < self.entries@.len() && self.entries@[i].0@ == id
    }

    /// No two live entries share an id.
    pub open spec fn wf(&self) -> bool {
        forall|i: int, j: int|
            0 <= i < j < self.entries@.len() ==> self.entries@[i].0@ != self.entries@[j].0@
    }

    pub fn new() -> (r: Registry<H>)
        ensures
            r.wf(),
            r.entries@.len() == 0,
    {
        Registry { entries: Vec::new() }
    }

    /// The index of the live entry for `id`, if any.
    fn find_index(&self, id: &String) -> (r: Option<usize>)
        ensures
            r matches Some(i) ==> 0 <= i < self.entries@.len() && self.entries@[i as int].0@
                == id@,
            r is None ==> !self.has_id(id@),
    {
        let mut i: usize = 0;
        while i < self.entries.len()
            invariant
                0 <= i <= self.entries@.len(),
                forall|j: int| 0 <= j < i ==> self.entries@[j].0@ != id@,
            decreases self.entries@.len() - i,
        {
            if eq_str(self.entries[i].0.as_str(), id.as_str()) {
                return Some(i);
            }
            i += 1;
        }
        None
    }

    /// The control handle registered under `id`, if a live entry exists.
    /// This is also the first half of `ensure`: a caller replacing a
    /// terminal looks the old handle up here, signals it to terminate,
    /// waits out the grace interval, and then commits with `register`.
    pub fn lookup(&self, id: &String) -> (r: Option<&H>)
        requires
            self.wf(),
        ensures
            r matches Some(h) ==> exists|i: int|
                0 <= i < self.entries@.len() && self.entries@[i].0@ == id@ && self.entries@[i].1
                    == *h,
            r is None ==> !self.has_id(id@),
    {
        match self.find_index(id) {
            Some(i) => Some(&self.entries[i].1),
            None => None,
        }
    }

    /// Commits a session under `id`, unconditionally: the second half of
    /// `ensure`. Any live entry is displaced and its handle returned, so
    /// the caller can log that the old session had not finished draining
    /// and its process may now run untracked. Afterwards exactly one live
    /// entry exists under `id`, and it holds `h`.
    pub fn register(&mut self, id: String, h: H) -> (displaced: Option<H>)
        requires
            old(self).wf(),
        ensures
            final(self).wf(),
            final(self).has_id(id@),
            forall|j: int|
                0 <= j < final(self).entries@.len() && final(self).entries@[j].0@ == id@
                    ==> final(self).entries@[j].1 == h,
            displaced is Some <==> old(self).has_id(id@),
            forall|j: int|
                0 <= j < old(self).entries@.len() && old(self).entries@[j].0@ != id@
                    ==> exists|k: int|
                    0 <= k < final(self).entries@.len() && final(self).entries@[k] == old(self).entries@[j],
            forall|k: int|
                0 <= k < final(self).entries@.len() && final(self).entries@[k].0@ != id@
                    ==> exists|j: int|
                    0 <= j < old(self).entries@.len() && old(self).entries@[j] == final(self).entries@[k],
    {
        let ghost prev = self.entries@;
        match self.find_index(&id) {
            Some(i) => {
                let (_, displaced) = self.entries.remove(i);
                let ghost mid = self.entries@;
                self.entries.push((id, h));
                proof {
                    assert(self.entries@[self.entries@.len() - 1].0@ == id@);
                    assert(forall|j: int| 0 <= j < i ==> mid[j] == prev[j]);
                    assert(forall|j: int|
                        i <= j < mid.len() ==> mid[j] == prev[j + 1]);
                    assert(forall|j: int|
                        0 <= j < mid.len() ==> mid[j].0@ != id@) by {
                        assert(forall|j: int|
                            0 <= j < prev.len() && j != i ==> prev[j].0@ != id@);
                    }
                    assert forall|j: int|
                        0 <= j < prev.len() && prev[j].0@ != id@ implies exists|k: int|
                        0 <= k < self.entries@.len() && self.entries@[k] == prev[j] by {
                        if j < i {
                            assert(self.entries@[j] == prev[j]);
                        } else {
                            assert(j > i);
                            assert(self.entries@[j - 1] == prev[j]);
                        }
                    }
                }
                Some(displaced)
            },
            None => {
                self.entries.push((id, h));
                proof {
                    assert(self.entries@[self.entries@.len() - 1].0@ == id@);
                    assert(forall|j: int| 0 <= j < prev.len() ==> prev[j].0@ != id@);
                    assert(forall|j: int|
                        0 <= j < prev.len() ==> self.entries@[j] == prev[j]);
                }
                None
            },
        }
    }

    /// Removes the live entry for `id` and hands its handle back so the
    /// caller can signal it to terminate; the session's own shutdown is
    /// decoupled from the map. Fails with `NotFound` iff no entry exists.
    pub fn remove(&mut self, id: &String) -> (r: Result<H, Error>)
        requires
            old(self).wf(),
        ensures
            final(self).wf(),
            !old(self).has_id(id@) ==> {
                &&& *final(self) == *old(self)
                &&& r matches Err(Error::NotFound(e)) && e@ == id@
            },
            old(self).has_id(id@) ==> {
                &&& !final(self).has_id(id@)
                &&& r matches Ok(h) && exists|j: int|
                    0 <= j < old(self).entries@.len() && old(self).entries@[j].0@ == id@ && old(self).entries@[j].1 == h
                &&& forall|j: int|
                    0 <= j < old(self).entries@.len() && old(self).entries@[j].0@ != id@
                        ==> exists|k: int|
                        0 <= k < final(self).entries@.len() && final(self).entries@[k] == old(self).entries@[j]
                &&& forall|k: int|
                    0 <= k < final(self).entries@.len() ==> exists|j: int|
                        0 <= j < old(self).entries@.len() && old(self).entries@[j] == #[trigger] final(self).entries@[k]
            },
    {
        let ghost prev = self.entries@;
        match self.find_index(id) {
            Some(i) => {
                let (_, h) = self.entries.remove(i);
                proof {
                    assert(forall|j: int| 0 <= j < i ==> self.entries@[j] == prev[j]);
                    assert(forall|j: int|
                        i <= j < self.entries@.len() ==> self.entries@[j] == prev[j + 1]);
                    assert(forall|j: int|
                        0 <= j < self.entries@.len() ==> self.entries@[j].0@ != id@) by {
                        assert(forall|j: int|
                            0 <= j < prev.len() && j != i ==> prev[j].0@ != id@);
                    }
                    assert forall|j: int|
                        0 <= j < prev.len() && prev[j].0@ != id@ implies exists|k: int|
                        0 <= k < self.entries@.len() && self.entries@[k] == prev[j] by {
                        if j < i {
                            assert(self.entries@[j] == prev[j]);
                        } else {
                            assert(j > i);
                            assert(self.entries@[j - 1] == prev[j]);
                        }
                    }
                }
                Ok(h)
            },
            None => Err(Error::NotFound(id.clone())),
        }
    }

    /// Resolves the target of a `run` submission: the handle to enqueue
    /// the command on. Fails with `NotFound` iff no live entry exists.
    pub fn submit(&self, id: &String) -> (r: Result<&H, Error>)
        requires
            self.wf(),
        ensures
            !self.has_id(id@) ==> (r matches Err(Error::NotFound(e)) && e@ == id@),
            self.has_id(id@) ==> (r matches Ok(h) && exists|i: int|
                0 <= i < self.entries@.len() && self.entries@[i].0@ == id@ && self.entries@[i].1
                    == *h),
    {
        match self.find_index(id) {
            Some(i) => Ok(&self.entries[i].1),
            None => Err(Error::NotFound(id.clone())),
        }
    }
}

/// Law (replacement): a well-formed registry never holds two entries for
/// one id, so after `register(id, h)` commits a replacement there is
/// exactly one live session under `id`, whether or not the displaced
/// session had finished draining.
pub proof fn lemma_at_most_one_entry<H>(r: Registry<H>, id: Seq<char>, i: int, j: int)
    requires
        r.wf(),
        0 <= i < r.entries@.len(),
        0 <= j < r.entries@.len(),
        r.entries@[i].0@ == id,
        r.entries@[j].0@ == id,
    ensures
        i == j,
{
}

} // verus!
