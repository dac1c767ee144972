use vstd::prelude::*;

verus! {

/// The card at `pos` of `pile`, if the pile is that deep.
pub open spec fn item_at(pile: Seq<u8>, pos: int) -> Option<u8> {
    if 0 <= pos < pile.len() {
        Some(pile[pos])
    } else {
        None
    }
}

/// The pile left after taking out the card at `pos`, if there is one there.
pub open spec fn without_item(pile: Seq<u8>, pos: int) -> Seq<u8> {
    if 0 <= pos < pile.len() {
        pile.remove(pos)
    } else {
        pile
    }
}

/// Reads the card at `pos` of a pile, if there is one; the pile is left as it was.
pub fn particular_item(from: &mut Vec<u8>, pos: usize) -> (r: Option<u8>)
    ensures
        final(from)@ == old(from)@,
        r == item_at(old(from)@, pos as int),
{
    match from.get(pos) {
        Some(c) => Some(*c),
        None => None,
    }
}

/// Takes the card at `pos` out of a pile, if there is one there.
pub fn extract_particular_item(from: &mut Vec<u8>, pos: usize) -> (r: Option<u8>)
    ensures
        r == item_at(old(from)@, pos as int),
        final(from)@ == without_item(old(from)@, pos as int),
{
    let ret = particular_item(from, pos);
    if ret.is_some() {
        from.remove(pos);
    }
    ret
}

/// Taking a card out of a pile loses no card and makes none up: the pile before holds
/// exactly the pile after and the card taken.
pub proof fn lemma_extract_keeps_cards(pile: Seq<u8>, pos: int)
    ensures
        item_at(pile, pos) matches Some(c) ==> pile.to_multiset() == without_item(
            pile,
            pos,
        ).to_multiset().insert(c),
        item_at(pile, pos) is None ==> without_item(pile, pos) == pile,
{
    broadcast use vstd::seq_lib::group_to_multiset_ensures, vstd::multiset::group_multiset_axioms;

    if 0 <= pos < pile.len() {
        assert(pile.remove(pos).to_multiset().insert(pile[pos]) =~= pile.to_multiset());
    }
}

} // verus!
