//! Vectors built from a list of values whose length is fixed where it is
//! written, or from one value repeated.
use vstd::prelude::*;

verus! {

/// The number of elements in a fixed-arity list, read from its type alone:
/// no element is looked at.
fn element_count<T, const N: usize>(_elements: &[T; N]) -> (n: usize)
    ensures
        n == N,
{
    N
}

/// A vector holding `elements` in the order written, allocated once with room
/// for exactly that many. Each element is the value of its expression, taken
/// once; an empty list gives an empty vector.
pub fn avec<T: Copy, const N: usize>(elements: [T; N]) -> (r: Vec<T>)
    ensures
        r@ == elements@,
        r@.len() == N,
{
    let count = element_count(&elements);
    let mut vs: Vec<T> = Vec::with_capacity(count);
    let mut i: usize = 0;
    while i < count
        invariant
            count == N,
            elements@.len() == N,
            i <= count,
            vs@ == elements@.subrange(0, i as int),
        decreases count - i,
    {
        vs.push(elements[i]);
        i = i + 1;
    }
    assert(vs@ =~= elements@);
    vs
}

/// A vector of `count` copies of `element`, evaluated once by the caller.
pub fn avec_repeat<T: Copy>(element: T, count: usize) -> (r: Vec<T>)
    ensures
        r@ == Seq::new(count as nat, |_i: int| element),
{
    let mut vs: Vec<T> = Vec::with_capacity(count);
    let mut i: usize = 0;
    while i < count
        invariant
            i <= count,
            vs@ == Seq::new(i as nat, |_i: int| element),
        decreases count - i,
    {
        vs.push(element);
        i = i + 1;
        assert(vs@ =~= Seq::new(i as nat, |_i: int| element));
    }
    vs
}

/// A vector of `count` results of `produce`, called once per slot in order,
/// so that each slot holds a result of its own call.
pub fn avec_repeat_with<T, F: FnMut() -> T>(count: usize, produce: F) -> (r: Vec<T>)
    requires
        call_requires(produce, ()),
    ensures
        r@.len() == count,
        forall|i: int| 0 <= i < count ==> call_ensures(produce, (), #[trigger] r@[i]),
{
    let ghost initial = produce;
    let mut produce = produce;
    let mut vs: Vec<T> = Vec::with_capacity(count);
    let mut i: usize = 0;
    while i < count
        invariant
            produce == initial,
            call_requires(initial, ()),
            i <= count,
            vs@.len() == i,
            forall|j: int| 0 <= j < i ==> call_ensures(initial, (), #[trigger] vs@[j]),
        decreases count - i,
    {
        let v = produce();
        proof {
            broadcast use vstd::function::group_function_axioms;
        }
        vs.push(v);
        i = i + 1;
    }
    vs
}

/// Marks that a repeat count must be an integer: anything else, such as a
/// string, is refused when the program is built rather than coerced.
///
/// ```compile_fail
/// let x: Vec<u32> = vecmac::avec_repeat(42, "foo");
/// ```
pub struct CompileFaileTest;

} // verus!
