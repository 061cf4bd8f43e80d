use vstd::prelude::*;

verus! {

/// The pieces one after the other, with `separator` between each two neighbours.
pub open spec fn joined(pieces: Seq<Seq<char>>, separator: Seq<char>) -> Seq<char>
    decreases pieces.len(),
{
    if pieces.len() == 0 {
        Seq::empty()
    } else if pieces.len() == 1 {
        pieces[0]
    } else {
        joined(pieces.drop_last(), separator) + separator + pieces.last()
    }
}

/// `part` stands somewhere in `whole`, in one piece.
pub open spec fn occurs_in(part: Seq<char>, whole: Seq<char>) -> bool {
    exists|start: int|
        0 <= start <= whole.len() - part.len() && #[trigger] whole.subrange(
            start,
            start + part.len(),
        ) == part
}

/// Every piece occurs in the text that the pieces are joined to.
pub proof fn joined_contains_every_piece(pieces: Seq<Seq<char>>, separator: Seq<char>, i: int)
    requires
        0 <= i < pieces.len(),
    ensures
        occurs_in(pieces[i], joined(pieces, separator)),
    decreases pieces.len(),
{
    let whole = joined(pieces, separator);
    if i == pieces.len() - 1 {
        let start = whole.len() - pieces[i].len();
        assert(whole.subrange(start, start + pieces[i].len()) =~= pieces[i]);
    } else {
        joined_contains_every_piece(pieces.drop_last(), separator, i);
        let before = joined(pieces.drop_last(), separator);
        let start = choose|start: int|
            0 <= start <= before.len() - pieces[i].len() && #[trigger] before.subrange(
                start,
                start + pieces[i].len(),
            ) == pieces[i];
        assert(whole.subrange(start, start + pieces[i].len()) =~= before.subrange(
            start,
            start + pieces[i].len(),
        ));
    }
}

} // verus!
