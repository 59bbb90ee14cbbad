//! Cutting byte strings at a separator, and dropping unwanted pieces.
use vstd::prelude::*;

verus! {

/// The pieces between occurrences of `sep` in `s`, as `str::split` gives
/// them: there is always one more piece than there are separators, and
/// pieces may be empty.
pub open spec fn split_pieces(s: Seq<u8>, sep: u8) -> Seq<Seq<u8>>
    decreases s.len(),
{
    if s.len() == 0 {
        seq![Seq::<u8>::empty()]
    } else {
        let before = split_pieces(s.drop_last(), sep);
        if s.last() == sep {
            before.push(Seq::<u8>::empty())
        } else {
            before.update(before.len() - 1, before.last().push(s.last()))
        }
    }
}

/// `pieces` with every piece equal to `unwanted` taken out, the rest in order,
/// as `Vec::retain(|p| *p != unwanted)` leaves it.
pub open spec fn without(pieces: Seq<Seq<u8>>, unwanted: Seq<u8>) -> Seq<Seq<u8>>
    decreases pieces.len(),
{
    if pieces.len() == 0 {
        pieces
    } else {
        let kept = without(pieces.drop_last(), unwanted);
        if pieces.last() == unwanted {
            kept
        } else {
            kept.push(pieces.last())
        }
    }
}

proof fn lemma_split_pieces_nonempty(s: Seq<u8>, sep: u8)
    ensures
        split_pieces(s, sep).len() >= 1,
    decreases s.len(),
{
    if s.len() > 0 {
        lemma_split_pieces_nonempty(s.drop_last(), sep);
    }
}

/// Cutting at a separator that joins two strings gives the pieces of each.
pub proof fn lemma_split_at_joining_separator(s: Seq<u8>, f: Seq<u8>, sep: u8)
    ensures
        split_pieces(s.push(sep) + f, sep) == split_pieces(s, sep) + split_pieces(f, sep),
    decreases f.len(),
{
    let joined = s.push(sep) + f;
    if f.len() == 0 {
        assert(joined =~= s.push(sep));
        assert(s.push(sep).drop_last() =~= s);
        assert(split_pieces(f, sep) =~= seq![Seq::<u8>::empty()]);
        assert(split_pieces(joined, sep) =~= split_pieces(s, sep) + split_pieces(f, sep));
    } else {
        lemma_split_at_joining_separator(s, f.drop_last(), sep);
        lemma_split_pieces_nonempty(f.drop_last(), sep);
        assert(joined.drop_last() =~= s.push(sep) + f.drop_last());
        assert(joined.last() == f.last());
        let a = split_pieces(s, sep);
        let b = split_pieces(f.drop_last(), sep);
        if f.last() == sep {
            assert((a + b).push(Seq::<u8>::empty()) =~= a + b.push(Seq::<u8>::empty()));
        } else {
            let ab = a + b;
            assert(ab.update(ab.len() - 1, ab.last().push(f.last())) =~= a + b.update(
                b.len() - 1,
                b.last().push(f.last()),
            ));
        }
    }
}

/// A string without the separator is a single piece.
pub proof fn lemma_split_without_separator(f: Seq<u8>, sep: u8)
    requires
        forall|i: int| 0 <= i < f.len() ==> f[i] != sep,
    ensures
        split_pieces(f, sep) == seq![f],
    decreases f.len(),
{
    if f.len() == 0 {
        assert(f =~= Seq::<u8>::empty());
        assert(split_pieces(f, sep) =~= seq![f]);
    } else {
        assert forall|i: int| 0 <= i < f.drop_last().len() implies f.drop_last()[i] != sep by {
            assert(f.drop_last()[i] == f[i]);
        }
        lemma_split_without_separator(f.drop_last(), sep);
        assert(f.last() != sep);
        assert(f.drop_last().push(f.last()) =~= f);
        assert(split_pieces(f, sep) =~= seq![f]);
    }
}

/// Taking pieces out of a joined list takes them out of each part.
pub proof fn lemma_without_join(a: Seq<Seq<u8>>, b: Seq<Seq<u8>>, unwanted: Seq<u8>)
    ensures
        without(a + b, unwanted) == without(a, unwanted) + without(b, unwanted),
    decreases b.len(),
{
    if b.len() == 0 {
        assert(a + b =~= a);
        assert(without(a, unwanted) + without(b, unwanted) =~= without(a, unwanted));
    } else {
        lemma_without_join(a, b.drop_last(), unwanted);
        assert((a + b).drop_last() =~= a + b.drop_last());
        assert((a + b).last() == b.last());
        let wa = without(a, unwanted);
        let wb = without(b.drop_last(), unwanted);
        assert((wa + wb).push(b.last()) =~= wa + wb.push(b.last()));
    }
}


/// Whether two byte strings are equal.
pub fn bytes_equal(a: &[u8], b: &[u8]) -> (eq: bool)
    ensures
        eq == (a@ == b@),
{
    if a.len() != b.len() {
        return false;
    }
    let n = a.len();
    for i in 0..n
        invariant
            n == a@.len(),
            n == b@.len(),
            forall|j: int| 0 <= j < i ==> a@[j] == b@[j],
    {
        if a[i] != b[i] {
            return false;
        }
    }
    assert(a@ =~= b@);
    true
}

/// Cuts `s` at every `sep`.
pub fn split_at_byte(s: &[u8], sep: u8) -> (pieces: Vec<Vec<u8>>)
    ensures
        pieces.len() == split_pieces(s@, sep).len(),
        forall|i: int| 0 <= i < pieces.len() ==> #[trigger] pieces[i]@ == split_pieces(s@, sep)[i],
{
    let n = s.len();
    let mut pieces: Vec<Vec<u8>> = Vec::new();
    let mut current: Vec<u8> = Vec::new();
    assert(s@.take(0) =~= Seq::<u8>::empty());
    for i in 0..n
        invariant
            n == s@.len(),
            split_pieces(s@.take(i as int), sep).len() == pieces.len() + 1,
            forall|j: int|
                0 <= j < pieces.len() ==> #[trigger] pieces[j]@ == split_pieces(
                    s@.take(i as int),
                    sep,
                )[j],
            current@ == split_pieces(s@.take(i as int), sep).last(),
    {
        let ghost prefix = s@.take(i as int);
        assert(s@.take(i + 1).drop_last() =~= prefix);
        assert(s@.take(i + 1).last() == s@[i as int]);
        if s[i] == sep {
            pieces.push(current);
            current = Vec::new();
        } else {
            current.push(s[i]);
        }
    }
    assert(s@.take(n as int) =~= s@);
    pieces.push(current);
    pieces
}

/// Takes out every piece equal to `unwanted`, keeping the others in order.
pub fn retain_unequal(pieces: Vec<Vec<u8>>, unwanted: &[u8]) -> (kept: Vec<Vec<u8>>)
    ensures
        kept.len() == without(pieces@.map_values(|p: Vec<u8>| p@), unwanted@).len(),
        forall|i: int|
            0 <= i < kept.len() ==> #[trigger] kept[i]@ == without(
                pieces@.map_values(|p: Vec<u8>| p@),
                unwanted@,
            )[i],
{
    let ghost all = pieces@.map_values(|p: Vec<u8>| p@);
    let n = pieces.len();
    let mut kept: Vec<Vec<u8>> = Vec::new();
    assert(all.take(0) =~= Seq::<Seq<u8>>::empty());
    for i in 0..n
        invariant
            n == pieces.len(),
            all == pieces@.map_values(|p: Vec<u8>| p@),
            kept.len() == without(all.take(i as int), unwanted@).len(),
            forall|j: int|
                0 <= j < kept.len() ==> #[trigger] kept[j]@ == without(
                    all.take(i as int),
                    unwanted@,
                )[j],
    {
        assert(all.take(i + 1).drop_last() =~= all.take(i as int));
        assert(all.take(i + 1).last() == pieces[i as int]@);
        if !bytes_equal(pieces[i].as_slice(), unwanted) {
            kept.push(pieces[i].clone());
        }
    }
    assert(all.take(n as int) =~= all);
    kept
}

} // verus!
