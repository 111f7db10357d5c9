//! Lists of byte strings, such as the arguments of a command or a batch of
//! paths.

use vstd::prelude::*;
use vstd::slice::slice_to_vec;

verus! {

/// The byte strings that a list holds.
pub open spec fn texts(args: Seq<Vec<u8>>) -> Seq<Seq<u8>> {
    Seq::new(args.len(), |i: int| args[i]@)
}

/// Appends one byte string, copied from a slice.
pub fn push_text(args: &mut Vec<Vec<u8>>, text: &[u8])
    ensures
        texts(final(args)@) == texts(old(args)@).push(text@),
{
    args.push(slice_to_vec(text));
    assert(texts(args@) =~= texts(old(args)@).push(text@));
}

/// Appends copies of all byte strings of another list.
pub fn push_texts(args: &mut Vec<Vec<u8>>, more: &Vec<Vec<u8>>)
    ensures
        texts(final(args)@) == texts(old(args)@) + texts(more@),
{
    let mut i: usize = 0;
    assert(texts(args@) =~= texts(old(args)@) + texts(more@.take(0)));
    while i < more.len()
        invariant
            i <= more.len(),
            texts(args@) == texts(old(args)@) + texts(more@.take(i as int)),
        decreases more.len() - i,
    {
        let ghost before = texts(args@);
        push_text(args, more[i].as_slice());
        assert(texts(more@.take(i as int + 1)) =~= texts(more@.take(i as int)).push(more@[i as int]@));
        assert(before.push(more@[i as int]@) =~= texts(old(args)@) + texts(
            more@.take(i as int + 1),
        ));
        i = i + 1;
    }
    assert(more@.take(more@.len() as int) =~= more@);
}

} // verus!
