//! Splitting sequences at the elements that a test picks out.

use vstd::prelude::*;
use vstd::std_specs::cmp::PartialEqSpec;

verus! {

/// `part` holds copies of the elements of `elems` from place `from` on, up to
/// the first one that `pred` accepts or to the end: `pred` has refused each
/// of them and, where one follows them, has accepted that one.
pub open spec fn is_run<T: Clone, F: Fn(&T) -> bool>(
    elems: Seq<T>,
    pred: F,
    from: int,
    part: Seq<T>,
) -> bool {
    &&& 0 <= from
    &&& from + part.len() <= elems.len()
    &&& forall|k: int|
        0 <= k < part.len() ==> cloned(elems[from + k], #[trigger] part[k]) && call_ensures(
            pred,
            (&elems[from + k],),
            false,
        )
    &&& from + part.len() < elems.len() ==> call_ensures(
        pred,
        (&elems[from + part.len()],),
        true,
    )
}

/// `part` holds copies of the elements of `elems` from place `from` on, up to
/// the first one that equals `stop` or to the end.
pub open spec fn is_run_to<T: PartialEq + Clone>(
    elems: Seq<T>,
    stop: T,
    from: int,
    part: Seq<T>,
) -> bool {
    &&& 0 <= from
    &&& from + part.len() <= elems.len()
    &&& forall|k: int|
        0 <= k < part.len() ==> cloned(elems[from + k], #[trigger] part[k]) && !elems[from
            + k].eq_spec(&stop)
    &&& from + part.len() < elems.len() ==> elems[from + part.len()].eq_spec(&stop)
}

fn run<T: Clone, F: Fn(&T) -> bool>(elems: &Vec<T>, pred: &F, from: usize) -> (part: Vec<T>)
    requires
        from <= elems.len(),
        forall|i: int| 0 <= i < elems.len() ==> call_requires(*pred, (&elems[i],)),
    ensures
        is_run(elems@, *pred, from as int, part@),
{
    let mut part: Vec<T> = Vec::new();
    let mut i: usize = from;
    while i < elems.len()
        invariant
            from <= i <= elems.len(),
            part.len() == i - from,
            forall|i: int| 0 <= i < elems.len() ==> call_requires(*pred, (&elems[i],)),
            forall|k: int|
                0 <= k < part.len() ==> cloned(elems[from + k], #[trigger] part[k]) && call_ensures(
                    *pred,
                    (&elems[from + k],),
                    false,
                ),
        decreases elems.len() - i,
    {
        if pred(&elems[i]) {
            return part;
        }
        part.push(elems[i].clone());
        i += 1;
    }
    part
}

/// Splits at the first element that equals `stop`: the elements before it,
/// and the elements behind it up to the next one that equals `stop`.
pub fn split_at<T: PartialEq + Clone>(elems: Vec<T>, stop: T) -> (parts: (Vec<T>, Vec<T>))
    ensures
        T::obeys_eq_spec() ==> is_run_to(elems@, stop, 0, parts.0@),
        T::obeys_eq_spec() && parts.0.len() < elems.len() ==> is_run_to(
            elems@,
            stop,
            parts.0.len() + 1,
            parts.1@,
        ),
        parts.0.len() >= elems.len() ==> parts.1.len() == 0,
{
    let pred = |t: &T| -> (same: bool)
        ensures
            T::obeys_eq_spec() ==> same == t.eq_spec(&stop),
        { *t == stop };
    split(elems, pred)
}

/// Splits at the first element that `pred` accepts: the elements before it,
/// and the elements behind it up to the next one that `pred` accepts.
// `pred` implements `Fn` so it can accept a closure that captures a variable
pub fn split<T: Clone, F: Fn(&T) -> bool>(elems: Vec<T>, pred: F) -> (parts: (Vec<T>, Vec<T>))
    requires
        forall|i: int| 0 <= i < elems.len() ==> call_requires(pred, (&elems[i],)),
    ensures
        is_run(elems@, pred, 0, parts.0@),
        parts.0.len() < elems.len() ==> is_run(elems@, pred, parts.0.len() + 1, parts.1@),
        parts.0.len() >= elems.len() ==> parts.1.len() == 0,
{
    let head = run(&elems, &pred, 0);
    let tail = if head.len() < elems.len() {
        run(&elems, &pred, head.len() + 1)
    } else {
        Vec::new()
    };
    (head, tail)
}

/// Takes from the front of `elems` the elements that `pred` accepts, up to the
/// first one that it refuses, and leaves the rest.
pub fn consume_while<T, F>(elems: &mut Vec<T>, pred: F) -> (head: Vec<T>) where
    F: Fn(&T) -> bool,

    requires
        forall|i: int| 0 <= i < old(elems).len() ==> call_requires(pred, (&old(elems)[i],)),
    ensures
        head@ + final(elems)@ == old(elems)@,
        forall|k: int| 0 <= k < head.len() ==> call_ensures(pred, (&#[trigger] head[k],), true),
        final(elems).len() > 0 ==> call_ensures(pred, (&final(elems)[0],), false),
{
    let mut index: usize = 0;
    while index < elems.len()
        invariant
            index <= elems.len(),
            *elems == *old(elems),
            forall|i: int| 0 <= i < elems.len() ==> call_requires(pred, (&elems[i],)),
            forall|k: int| 0 <= k < index ==> call_ensures(pred, (&#[trigger] elems[k],), true),
        ensures
            index <= elems.len(),
            *elems == *old(elems),
            forall|k: int| 0 <= k < index ==> call_ensures(pred, (&#[trigger] elems[k],), true),
            index < elems.len() ==> call_ensures(pred, (&elems[index as int],), false),
        decreases elems.len() - index,
    {
        if !pred(&elems[index]) {
            break ;
        }
        index += 1;
    }
    let mut head = elems.split_off(index);
    std::mem::swap(elems, &mut head);
    assert(head@ + elems@ =~= old(elems)@);
    head
}

} // verus!
