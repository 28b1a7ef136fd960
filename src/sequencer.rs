use vstd::prelude::*;

use crate::item::LithiumError;

verus! {

/// The reference that a counter in state `c` hands out next: a counter that
/// was never written starts at one.
pub open spec fn next_of(c: Option<u32>) -> nat {
    match c {
        None => 1,
        Some(n) => n as nat,
    }
}

/// The persisted record that numbers items: `None` until the first item is
/// created, then the value that the next created item receives.
pub struct ReferenceCounter {
    next: Option<u32>,
}

impl View for ReferenceCounter {
    type V = Option<u32>;

    closed spec fn view(&self) -> Option<u32> {
        self.next
    }
}

impl ReferenceCounter {
    /// A counter that has handed out nothing yet.
    pub fn new() -> (c: Self)
        ensures
            c@ is None,
    {
        ReferenceCounter { next: None }
    }

    /// A counter restored from its stored record.
    pub fn from_stored(next: Option<u32>) -> (c: Self)
        ensures
            c@ == next,
    {
        ReferenceCounter { next }
    }

    /// The stored record.
    pub fn stored(&self) -> (r: Option<u32>)
        ensures
            r == self@,
    {
        self.next
    }

    /// Hands out the next reference and advances the counter by one, as one
    /// read-modify-write step. The first reference is one. When the stored
    /// value cannot be advanced within `u32`, nothing is handed out and the
    /// counter is left as it was.
    pub fn advance(&mut self) -> (r: Result<u32, LithiumError>)
        ensures
            match old(self)@ {
                None => r == Ok::<u32, LithiumError>(1) && final(self)@ == Some(2u32),
                Some(n) => if n == u32::MAX {
                    &&& r matches Err(LithiumError::Db(_))
                    &&& final(self)@ == old(self)@
                } else {
                    &&& r == Ok::<u32, LithiumError>(n)
                    &&& final(self)@ == Some((n + 1) as u32)
                },
            },
    {
        match self.next {
            None => {
                self.next = Some(2);
                Ok(1)
            },
            Some(n) => {
                if n == u32::MAX {
                    Err(LithiumError::Db("reference counter exhausted".to_owned()))
                } else {
                    self.next = Some(n + 1);
                    Ok(n)
                }
            },
        }
    }
}

} // verus!
