//! The registry of execution-context handles.
//!
//! A handle is a small integer standing for one native worker; only the
//! integer ever crosses the boundary. Each handle carries a share count:
//! one share for its creator, one more per borrow, one fewer per release.
//! The release that takes the count to zero is the one after which the
//! worker must be torn down. Releasing a dead or unknown handle reports a
//! distinguishable error instead of corrupting other handles.

use vstd::prelude::*;

use crate::errors::ResourceError;

verus! {

/// Creating a handle: a new slot with one share; the handle is its index.
pub open spec fn spec_create(s: Seq<u64>) -> (Seq<u64>, int) {
    (s.push(1), s.len() as int)
}

/// Whether `h` names a live handle in `s`.
pub open spec fn spec_live(s: Seq<u64>, h: int) -> bool {
    0 <= h < s.len() && s[h] > 0
}

/// One share released from a live handle.
pub open spec fn spec_released(s: Seq<u64>, h: int) -> Seq<u64>
    recommends
        spec_live(s, h),
{
    s.update(h, (s[h] - 1) as u64)
}

/// Whether releasing `h` from `s` surrenders the last share, after which
/// the worker is torn down.
pub open spec fn spec_last_share(s: Seq<u64>, h: int) -> bool {
    s[h] == 1
}

/// Creating a handle and closing it with no call in between surrenders
/// the last share and leaves the slot dead: nothing is leaked.
pub proof fn lemma_create_then_close(s: Seq<u64>)
    ensures
        ({
            let (created, h) = spec_create(s);
            &&& spec_live(created, h)
            &&& spec_last_share(created, h)
            &&& !spec_live(spec_released(created, h), h)
        }),
{
}

/// The process-wide table of execution-context handles.
pub struct ContextRegistry {
    shares: Vec<u64>,
}

impl View for ContextRegistry {
    type V = Seq<u64>;

    closed spec fn view(&self) -> Seq<u64> {
        self.shares@
    }
}

impl ContextRegistry {
    /// An empty registry: no handle has ever been issued.
    pub fn new() -> (r: Self)
        ensures
            r@ == Seq::<u64>::empty(),
    {
        let r = ContextRegistry { shares: Vec::new() };
        assert(r@ =~= Seq::<u64>::empty());
        r
    }

    /// Issues a fresh handle holding its creator's single share.
    pub fn create(&mut self) -> (h: usize)
        ensures
            ({
                let (created, handle) = spec_create(old(self)@);
                final(self)@ == created && h as int == handle
            }),
    {
        let h = self.shares.len();
        self.shares.push(1);
        h
    }

    /// The share count of `h`, or `None` for a handle never issued.
    pub fn share_count(&self, h: usize) -> (r: Option<u64>)
        ensures
            match r {
                Some(c) => h < self@.len() && c == self@[h as int],
                None => h >= self@.len(),
            },
    {
        if h < self.shares.len() {
            Some(*vstd::std_specs::vec::vec_index(&self.shares, h))
        } else {
            None
        }
    }

    /// Takes one more share of a live handle, as every call that uses the
    /// worker must before touching it. The count stays below `u64::MAX`
    /// because each outstanding share is one in-flight call.
    pub fn borrow(&mut self, h: usize) -> (r: Result<(), ResourceError>)
        requires
            spec_live(old(self)@, h as int) ==> old(self)@[h as int] < u64::MAX,
        ensures
            match r {
                Ok(_) => {
                    &&& spec_live(old(self)@, h as int)
                    &&& final(self)@ == old(self)@.update(
                        h as int,
                        (old(self)@[h as int] + 1) as u64,
                    )
                },
                Err(ResourceError::UnknownHandle) => h >= old(self)@.len() && final(self)@ == old(
                    self,
                )@,
                Err(ResourceError::AlreadyReleased) => h < old(self)@.len() && old(self)@[h as int]
                    == 0 && final(self)@ == old(self)@,
            },
    {
        if h >= self.shares.len() {
            return Err(ResourceError::UnknownHandle);
        }
        let count = *vstd::std_specs::vec::vec_index(&self.shares, h);
        if count == 0 {
            return Err(ResourceError::AlreadyReleased);
        }
        self.shares.set(h, count + 1);
        Ok(())
    }

    /// Surrenders one share of a live handle. `Ok(true)` says it was the
    /// last one and the worker must now be torn down. A second release of
    /// a dead handle is refused, distinguishably, and changes nothing.
    pub fn release(&mut self, h: usize) -> (r: Result<bool, ResourceError>)
        ensures
            match r {
                Ok(last) => {
                    &&& spec_live(old(self)@, h as int)
                    &&& last == spec_last_share(old(self)@, h as int)
                    &&& final(self)@ == spec_released(old(self)@, h as int)
                    &&& (last ==> !spec_live(final(self)@, h as int))
                },
                Err(ResourceError::UnknownHandle) => h >= old(self)@.len() && final(self)@ == old(
                    self,
                )@,
                Err(ResourceError::AlreadyReleased) => h < old(self)@.len() && old(self)@[h as int]
                    == 0 && final(self)@ == old(self)@,
            },
    {
        if h >= self.shares.len() {
            return Err(ResourceError::UnknownHandle);
        }
        let count = *vstd::std_specs::vec::vec_index(&self.shares, h);
        if count == 0 {
            return Err(ResourceError::AlreadyReleased);
        }
        self.shares.set(h, count - 1);
        Ok(count == 1)
    }
}

} // verus!
