//! A value that remembers whether it was handed out for writing since the
//! flag was last cleared.
use vstd::prelude::*;

verus! {

pub struct Memoized<T> {
    value: T,
    updated: bool,
}

impl<T> Memoized<T> {
    pub closed spec fn value_spec(&self) -> T {
        self.value
    }

    pub closed spec fn updated_spec(&self) -> bool {
        self.updated
    }

    /// `value`, not marked.
    pub closed spec fn fresh(value: T) -> Self {
        Memoized { value, updated: false }
    }

    /// Wraps `value`, not yet marked as changed.
    pub fn new(value: T) -> (m: Memoized<T>)
        ensures
            m == Self::fresh(value),
            m.value_spec() == value,
            !m.updated_spec(),
    {
        Memoized { value, updated: false }
    }

    /// Read access; does not mark the value.
    pub fn get(&self) -> (r: &T)
        ensures
            *r == self.value_spec(),
    {
        &self.value
    }

    /// Write access; marks the value as changed.
    pub fn get_mut(&mut self) -> (r: &mut T)
        ensures
            *r == old(self).value_spec(),
            final(self).value_spec() == *final(r),
            final(self).updated_spec(),
    {
        self.updated = true;
        &mut self.value
    }

    /// Clears the mark.
    pub fn reset(&mut self)
        ensures
            final(self).value_spec() == old(self).value_spec(),
            !final(self).updated_spec(),
    {
        self.updated = false;
    }

    /// If the value was marked, clears the mark and hands the value out for
    /// handling; writes made through the handle do not mark it again.
    pub fn handle_updated(&mut self) -> (r: Option<&mut T>)
        ensures
            old(self).updated_spec() <==> r.is_some(),
            !final(self).updated_spec(),
            r.is_none() ==> final(self).value_spec() == old(self).value_spec(),
            r matches Some(h) ==> *h == old(self).value_spec() && final(self).value_spec()
                == *final(h),
    {
        if self.updated {
            self.updated = false;
            Some(&mut self.value)
        } else {
            None
        }
    }

    /// Whether the value was marked since the mark was last cleared.
    pub fn updated(&self) -> (r: bool)
        ensures
            r == self.updated_spec(),
    {
        self.updated
    }
}

impl<T> From<T> for Memoized<T> {
    fn from(value: T) -> (m: Self) {
        Memoized::new(value)
    }
}

impl<T> vstd::std_specs::convert::FromSpecImpl<T> for Memoized<T> {
    open spec fn obeys_from_spec() -> bool {
        true
    }

    open spec fn from_spec(v: T) -> Self {
        Memoized::fresh(v)
    }
}

} // verus!
