use vstd::prelude::*;
use std::mem::ManuallyDrop;
use crate::sovereign::Sovereign;

verus! {

/// A raw buffer handed between software and hardware; it is never dropped implicitly.
pub struct RawResource<T> {
    inner: ManuallyDrop<T>,
}

impl<T> RawResource<T> {
    /// The held value.
    pub closed spec fn value(&self) -> T {
        self.inner@
    }

    pub fn new(value: T) -> (r: RawResource<T>)
        ensures
            r.value() == value,
    {
        RawResource { inner: ManuallyDrop::new(value) }
    }

    /// Shared access to the held value.
    pub fn get(&self) -> (r: &T)
        ensures
            *r == self.value(),
    {
        &*self.inner
    }

    /// Takes the held value out.
    pub fn into_inner(self) -> (r: T)
        ensures
            r == self.value(),
    {
        ManuallyDrop::into_inner(self.inner)
    }

    /// Hands the buffer to the hardware; `wait` gives it back.
    pub fn give_to_hardware(self) -> (r: HardwareFuture<T>)
        ensures
            r.value() == self.value(),
    {
        HardwareFuture { data: Some(self) }
    }
}

/// A buffer that the hardware holds until `wait` returns it.
pub struct HardwareFuture<T> {
    data: Option<RawResource<T>>,
}

impl<T> HardwareFuture<T> {
    #[verifier::type_invariant]
    spec fn holds_data(&self) -> bool {
        self.data is Some
    }

    /// The value that the hardware holds.
    pub closed spec fn value(&self) -> T {
        self.data->Some_0.value()
    }

    /// Waits for the hardware to finish and returns the buffer unchanged.
    pub fn wait(self) -> (r: RawResource<T>)
        ensures
            r.value() == self.value(),
    {
        proof {
            use_type_invariant(&self);
        }
        self.data.unwrap()
    }
}

/// The pipeline that refines raw resources into guarded products.
pub trait Hilirisasi {
    type Raw;
    type Product;

    fn refine(raw: RawResource<Self::Raw>) -> Sovereign<Self::Product>;
}

} // verus!
