//! Kinds of queries.

use vstd::prelude::*;

verus! {

/// A query whose value is supplied from outside. Until a value is set, the
/// query has the default value of `Data`.
pub trait Input {
    /// The type of the values of this input.
    type Data: Send + Sync + Default + Eq;
}

/// The value of an input that was never set: whatever `Data::default`
/// gives.
pub fn unset<I: Input>() -> (data: I::Data)
    ensures
        call_ensures(<I::Data as Default>::default, (), data),
{
    <I::Data as Default>::default()
}

} // verus!
