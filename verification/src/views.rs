//! Views of sequences, element by element.

use vstd::prelude::*;

verus! {

/// The views of the elements of a sequence.
pub open spec fn views<T: View>(s: Seq<T>) -> Seq<T::V> {
    Seq::new(s.len(), |i: int| s[i]@)
}

/// An optional text by its view.
pub open spec fn text_of(found: Option<String>) -> Option<Seq<char>> {
    match found {
        Some(text) => Some(text@),
        None => None,
    }
}

/// Optional texts by their views.
pub open spec fn texts(s: Seq<Option<String>>) -> Seq<Option<Seq<char>>> {
    Seq::new(s.len(), |i: int| text_of(s[i]))
}

/// Positions as mathematical integers.
pub open spec fn ints(s: Seq<usize>) -> Seq<int> {
    Seq::new(s.len(), |i: int| s[i] as int)
}

/// Pushing a position pushes its integer.
pub proof fn lemma_ints_push(s: Seq<usize>, p: usize)
    ensures
        ints(s.push(p)) == ints(s).push(p as int),
{
    assert(ints(s.push(p)) =~= ints(s).push(p as int));
}

} // verus!
