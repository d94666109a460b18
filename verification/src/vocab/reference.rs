//! Property values that hold either an identifier or an embedded object, and
//! property values that hold zero or more values.

use vstd::prelude::*;

use crate::vocab::iri::Iri;
use vstd::std_specs::iter::IteratorSpec;

verus! {

/// A non-scalar ActivityStreams property value.
///
/// ActivityStreams object slots can contain either an embedded object or the
/// object's IRI. Both forms stay explicit and nothing is dereferenced.
#[derive(Clone, Debug, PartialEq, Eq)]
pub enum Reference<T> {
    Id(Iri),
    Object(Box<T>),
}

impl<T> Reference<T> {
    /// A reference by identifier.
    pub fn id(id: Iri) -> (r: Self)
        ensures
            r == Reference::<T>::Id(id),
    {
        Reference::Id(id)
    }

    /// A reference that embeds `object`.
    pub fn object(object: T) -> (r: Self)
        ensures
            r == Reference::Object(Box::new(object)),
    {
        Reference::Object(Box::new(object))
    }
}

/// Zero or more ActivityStreams property values.
///
/// Empty values are left out when written, one value is written as a scalar,
/// and several values as an array.
#[derive(Clone, Debug, PartialEq, Eq)]
pub struct References<T> {
    values: Vec<T>,
}

impl<T> View for References<T> {
    type V = Seq<T>;

    closed spec fn view(&self) -> Seq<T> {
        self.values@
    }
}

impl<T> Default for References<T> {
    fn default() -> (r: Self)
        ensures
            r@ == Seq::<T>::empty(),
    {
        Self::new()
    }
}

impl<T> References<T> {
    /// No values.
    pub fn new() -> (r: Self)
        ensures
            r@ == Seq::<T>::empty(),
    {
        References { values: Vec::new() }
    }

    /// Exactly one value.
    pub fn one(value: T) -> (r: Self)
        ensures
            r@ == seq![value],
    {
        let mut values: Vec<T> = Vec::new();
        values.push(value);
        References { values }
    }

    /// The given values, in order.
    pub fn many(values: Vec<T>) -> (r: Self)
        ensures
            r@ == values@,
    {
        References { values }
    }

    /// Whether there is no value.
    pub fn is_empty(&self) -> (r: bool)
        ensures
            r == (self@.len() == 0),
    {
        self.values.is_empty()
    }

    /// The number of values.
    pub fn len(&self) -> (r: usize)
        ensures
            r == self@.len(),
    {
        self.values.len()
    }

    /// The values, in order.
    pub fn iter(&self) -> (r: core::slice::Iter<'_, T>)
        ensures
            r.remaining() == self@.as_ref(),
    {
        proof {
            broadcast use vstd::std_specs::slice::axiom_spec_slice_iter;
        }
        self.values.iter()
    }

    /// The values, in order, as a vector.
    pub fn into_vec(self) -> (r: Vec<T>)
        ensures
            r@ == self@,
    {
        self.values
    }
}

impl<T> From<Vec<T>> for References<T> {
    fn from(values: Vec<T>) -> (r: Self) {
        References { values }
    }
}

impl<T> vstd::std_specs::convert::FromSpecImpl<Vec<T>> for References<T> {
    open spec fn obeys_from_spec() -> bool {
        true
    }

    closed spec fn from_spec(values: Vec<T>) -> Self {
        References { values }
    }
}

/// The values a vector converts to are its elements, in order.
pub proof fn lemma_from_vec_keeps_values<T>(values: Vec<T>)
    ensures
        <References<T> as vstd::std_specs::convert::FromSpec<Vec<T>>>::from_spec(values)@ == values@,
{
}

} // verus!
