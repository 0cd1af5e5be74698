use vstd::prelude::*;

verus! {

/// The joint parameter vector of a fit: all component yields, in PDF order,
/// followed by all shape parameters, in declaration order. The same layout
/// orders the starting point, the optimizer bounds, the fitted point, its
/// uncertainties, and the axes of the joint covariance.
pub fn join_parameters<T: Copy>(yields: &[T], shapes: &[T]) -> (joint: Vec<T>)
    requires
        yields@.len() + shapes@.len() <= usize::MAX,
    ensures
        joint@ == yields@ + shapes@,
{
    let mut joint: Vec<T> = Vec::new();
    let mut i: usize = 0;
    while i < yields.len()
        invariant
            0 <= i <= yields@.len(),
            joint@ == yields@.take(i as int),
        decreases yields@.len() - i,
    {
        joint.push(yields[i]);
        i = i + 1;
        assert(joint@ =~= yields@.take(i as int));
    }
    let mut j: usize = 0;
    while j < shapes.len()
        invariant
            0 <= j <= shapes@.len(),
            i == yields@.len(),
            joint@ == yields@ + shapes@.take(j as int),
        decreases shapes@.len() - j,
    {
        joint.push(shapes[j]);
        j = j + 1;
        assert(joint@ =~= yields@ + shapes@.take(j as int));
    }
    assert(yields@.take(i as int) =~= yields@);
    assert(shapes@.take(j as int) =~= shapes@);
    joint
}

/// Splits a joint parameter vector into its first `n_yields` entries, the
/// yields, and the rest, the shape parameters.
pub fn split_parameters<T: Copy>(joint: &[T], n_yields: usize) -> (parts: (Vec<T>, Vec<T>))
    requires
        n_yields <= joint@.len(),
    ensures
        parts.0@ == joint@.take(n_yields as int),
        parts.1@ == joint@.skip(n_yields as int),
{
    let mut yields: Vec<T> = Vec::new();
    let mut shapes: Vec<T> = Vec::new();
    let mut i: usize = 0;
    while i < joint.len()
        invariant
            0 <= i <= joint@.len(),
            n_yields <= joint@.len(),
            yields@ == joint@.take(if i < n_yields { i as int } else { n_yields as int }),
            shapes@ == (if i < n_yields {
                Seq::<T>::empty()
            } else {
                joint@.subrange(n_yields as int, i as int)
            }),
        decreases joint@.len() - i,
    {
        if i < n_yields {
            yields.push(joint[i]);
        } else {
            shapes.push(joint[i]);
        }
        i = i + 1;
        assert(yields@ =~= joint@.take(if i < n_yields { i as int } else { n_yields as int }));
        assert(shapes@ =~= (if i < n_yields {
            Seq::<T>::empty()
        } else {
            joint@.subrange(n_yields as int, i as int)
        }));
    }
    assert(joint@.subrange(n_yields as int, i as int) =~= joint@.skip(n_yields as int));
    (yields, shapes)
}

/// Pairs each name with the value at the same position, in order, for as
/// many positions as both have; this keys the fitted shape parameters and
/// their uncertainties by name.
pub fn pair_with_names<T: Copy>(names: &Vec<String>, values: &[T]) -> (pairs: Vec<(String, T)>)
    ensures
        pairs@.len() == if names@.len() <= values@.len() {
            names@.len()
        } else {
            values@.len()
        },
        forall|i: int|
            #![trigger pairs@[i]]
            0 <= i < pairs@.len() ==> pairs@[i].0 == names@[i] && pairs@[i].1 == values@[i],
{
    let n = if names.len() <= values.len() {
        names.len()
    } else {
        values.len()
    };
    let mut pairs: Vec<(String, T)> = Vec::new();
    let mut i: usize = 0;
    while i < n
        invariant
            0 <= i <= n,
            n <= names@.len(),
            n <= values@.len(),
            pairs@.len() == i,
            forall|k: int|
                #![trigger pairs@[k]]
                0 <= k < i ==> pairs@[k].0 == names@[k] && pairs@[k].1 == values@[k],
        decreases n - i,
    {
        pairs.push((names[i].clone(), values[i]));
        i = i + 1;
    }
    pairs
}

/// Splitting a joint vector at the number of yields gives back the yields
/// and the shape parameters that were joined.
pub proof fn lemma_split_inverts_join<T>(yields: Seq<T>, shapes: Seq<T>)
    ensures
        (yields + shapes).take(yields.len() as int) == yields,
        (yields + shapes).skip(yields.len() as int) == shapes,
{
    assert((yields + shapes).take(yields.len() as int) =~= yields);
    assert((yields + shapes).skip(yields.len() as int) =~= shapes);
}

/// Joining the two parts of a split gives back the joint vector.
pub proof fn lemma_join_inverts_split<T>(joint: Seq<T>, n_yields: int)
    requires
        0 <= n_yields <= joint.len(),
    ensures
        joint.take(n_yields) + joint.skip(n_yields) == joint,
{
    assert(joint.take(n_yields) + joint.skip(n_yields) =~= joint);
}

} // verus!
