use vstd::prelude::*;

verus! {

/// Pairs each item of `items` with the value that `make_annotation` computes
/// from it. The output has one pair per input item, in the input's order,
/// and the first component of the i-th pair is the i-th input item itself.
pub fn annotate<T, U>(items: Vec<T>, make_annotation: impl Fn(&T) -> U) -> (out: Vec<(T, U)>)
    requires
        forall|i: int|
            #![trigger items@[i]]
            0 <= i < items@.len() ==> call_requires(make_annotation, (&items@[i],)),
    ensures
        out@.len() == items@.len(),
        forall|i: int| 0 <= i < items@.len() ==> (#[trigger] out@[i]).0 == items@[i],
        forall|i: int|
            0 <= i < items@.len() ==> call_ensures(
                make_annotation,
                (&items@[i],),
                (#[trigger] out@[i]).1,
            ),
{
    let ghost orig = items@;
    let mut rest = items;
    let mut out: Vec<(T, U)> = Vec::new();
    while rest.len() > 0
        invariant
            forall|i: int|
                #![trigger orig[i]]
                0 <= i < orig.len() ==> call_requires(make_annotation, (&orig[i],)),
            out@.len() + rest@.len() == orig.len(),
            rest@ == orig.subrange(out@.len() as int, orig.len() as int),
            forall|i: int| 0 <= i < out@.len() ==> (#[trigger] out@[i]).0 == orig[i],
            forall|i: int|
                0 <= i < out@.len() ==> call_ensures(
                    make_annotation,
                    (&orig[i],),
                    (#[trigger] out@[i]).1,
                ),
        decreases rest@.len(),
    {
        let item = rest.remove(0);
        let annotation = make_annotation(&item);
        out.push((item, annotation));
        proof {
            assert(rest@ =~= orig.subrange(out@.len() as int, orig.len() as int));
        }
    }
    out
}

} // verus!
