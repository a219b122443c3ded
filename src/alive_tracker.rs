use vstd::prelude::*;

verus! {

/// A flag that tells whether a protocol object is still alive.
///
/// It starts alive and is set dead once, by the object's destruction hook; no
/// operation makes it alive again.
#[derive(Debug)]
pub struct AliveTracker {
    is_alive: bool,
}

impl View for AliveTracker {
    type V = bool;

    closed spec fn view(&self) -> bool {
        self.is_alive
    }
}

impl AliveTracker {
    pub fn new() -> (r: AliveTracker)
        ensures
            r@,
    {
        AliveTracker { is_alive: true }
    }

    /// Whether the tracked object has not been destroyed yet.
    pub fn alive(&self) -> (r: bool)
        ensures
            r == self@,
    {
        self.is_alive
    }

    /// Marks the tracked object as destroyed. Calling it again changes nothing.
    pub fn destroy_notify(&mut self)
        ensures
            !final(self)@,
    {
        self.is_alive = false;
    }
}

} // verus!
