use vstd::prelude::*;

verus! {

/// A declared invariant that failed after a mutation.
#[derive(Debug, PartialEq, Eq)]
pub enum ConstitutionError {
    InvariantViolation { description: String },
}

/// A type whose values carry invariants that callers check after each mutation.
pub trait Constitution {
    /// Checks every invariant of `self`, reporting the first one that fails.
    fn enforce_law(&self) -> Result<(), ConstitutionError>;
}

/// Checks `value` against each `(predicate, description)` pair in order and reports the
/// description of the first predicate that does not hold. The value is not rolled back.
pub fn enforce_invariants<T, F: Fn(&T) -> bool>(value: &T, laws: &Vec<(F, String)>) -> (r: Result<
    (),
    ConstitutionError,
>)
    requires
        forall|i: int| 0 <= i < laws@.len() ==> (#[trigger] laws@[i]).0.requires((value,)),
    ensures
        r is Ok ==> forall|i: int| 0 <= i < laws@.len() ==> (#[trigger] laws@[i]).0.ensures((value,), true),
        r is Err ==> exists|i: int|
            0 <= i < laws@.len() && (#[trigger] laws@[i]).0.ensures((value,), false)
                && r->Err_0->description@ == laws@[i].1@ && forall|j: int|
                0 <= j < i ==> (#[trigger] laws@[j]).0.ensures((value,), true),
{
    let mut i: usize = 0;
    while i < laws.len()
        invariant
            i <= laws@.len(),
            forall|i: int| 0 <= i < laws@.len() ==> (#[trigger] laws@[i]).0.requires((value,)),
            forall|j: int| 0 <= j < i ==> (#[trigger] laws@[j]).0.ensures((value,), true),
        decreases laws@.len() - i,
    {
        let law = &laws[i];
        let holds = (law.0)(value);
        if !holds {
            let description = law.1.clone();
            return Err(ConstitutionError::InvariantViolation { description });
        }
        i = i + 1;
    }
    Ok(())
}

} // verus!
