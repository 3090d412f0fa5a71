use vstd::prelude::*;

verus! {

/// The ring buffer that holds speculatively rendered samples.
#[verifier::external_type_specification]
#[verifier::external_body]
#[verifier::reject_recursive_types(S)]
pub struct ExBounded<S>(dasp::ring_buffer::Bounded<S>);

/// The samples held by a ring, oldest first.
pub uninterp spec fn ring_samples(b: dasp::ring_buffer::Bounded<Vec<u32>>) -> Seq<u32>;

/// The number of slots that a ring was made with.
pub uninterp spec fn ring_capacity(b: dasp::ring_buffer::Bounded<Vec<u32>>) -> nat;

/// Relies on `Bounded::from`: the ring starts empty, its capacity the length of
/// the storage it is given (it panics on empty storage).
#[verifier::external_body]
pub(crate) fn ring_from(data: Vec<u32>) -> (r: dasp::ring_buffer::Bounded<Vec<u32>>)
    requires
        data@.len() > 0,
    ensures
        ring_samples(r) == Seq::<u32>::empty(),
        ring_capacity(r) == data@.len(),
{
    dasp::ring_buffer::Bounded::from(data)
}

/// Relies on `Bounded::len`: the number of samples held, never above capacity.
#[verifier::external_body]
pub(crate) fn ring_len(b: &dasp::ring_buffer::Bounded<Vec<u32>>) -> (r: usize)
    ensures
        r == ring_samples(*b).len(),
        r <= ring_capacity(*b),
{
    b.len()
}

/// Relies on `Bounded::max_len`: the capacity.
#[verifier::external_body]
pub(crate) fn ring_max_len(b: &dasp::ring_buffer::Bounded<Vec<u32>>) -> (r: usize)
    ensures
        r == ring_capacity(*b),
{
    b.max_len()
}

/// Relies on `Bounded::push`: below capacity the sample is appended and `None`
/// returned; at capacity the oldest sample is overwritten and returned.
#[verifier::external_body]
pub(crate) fn ring_push(b: &mut dasp::ring_buffer::Bounded<Vec<u32>>, x: u32) -> (r: Option<u32>)
    requires
        ring_capacity(*old(b)) > 0,
    ensures
        ring_capacity(*final(b)) == ring_capacity(*old(b)),
        ring_samples(*old(b)).len() < ring_capacity(*old(b)) ==> {
            &&& r.is_none()
            &&& ring_samples(*final(b)) == ring_samples(*old(b)).push(x)
        },
        ring_samples(*old(b)).len() >= ring_capacity(*old(b)) ==> {
            &&& r == Some(ring_samples(*old(b))[0])
            &&& ring_samples(*final(b)) == ring_samples(*old(b)).drop_first().push(x)
        },
{
    b.push(x)
}

/// Relies on `Bounded::pop`: removes and returns the oldest sample, or `None`
/// when empty.
#[verifier::external_body]
pub(crate) fn ring_pop(b: &mut dasp::ring_buffer::Bounded<Vec<u32>>) -> (r: Option<u32>)
    requires
        ring_capacity(*old(b)) > 0,
    ensures
        ring_capacity(*final(b)) == ring_capacity(*old(b)),
        ring_samples(*old(b)).len() == 0 ==> {
            &&& r.is_none()
            &&& ring_samples(*final(b)) == ring_samples(*old(b))
        },
        ring_samples(*old(b)).len() > 0 ==> {
            &&& r == Some(ring_samples(*old(b))[0])
            &&& ring_samples(*final(b)) == ring_samples(*old(b)).drop_first()
        },
{
    b.pop()
}

} // verus!
