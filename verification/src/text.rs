//! Small verified string helpers shared by the other modules.

use vstd::prelude::*;
use vstd::string::StrSliceExecFns;
use vstd::string::StringExecFns;

verus! {

/// `n` copies of the character `c`.
pub open spec fn repeat_char(c: char, n: nat) -> Seq<char> {
    Seq::new(n, |_i: int| c)
}

/// Appends `n` copies of the one-character string `unit` to `s`.
pub fn push_repeated(s: &mut String, unit: &str, n: usize)
    requires
        unit@.len() == 1,
    ensures
        final(s)@ == old(s)@ + repeat_char(unit@[0], n as nat),
{
    let mut i: usize = 0;
    while i < n
        invariant
            unit@.len() == 1,
            i <= n,
            s@ == old(s)@ + repeat_char(unit@[0], i as nat),
        decreases n - i,
    {
        s.append(unit);
        i = i + 1;
        assert(s@ =~= old(s)@ + repeat_char(unit@[0], i as nat));
    }
}

/// Whether two strings hold the same characters.
pub fn same_text(a: &str, b: &str) -> (eq: bool)
    ensures
        eq == (a@ == b@),
{
    let la = a.unicode_len();
    let lb = b.unicode_len();
    if la != lb {
        return false;
    }
    let mut i: usize = 0;
    while i < la
        invariant
            la == a@.len(),
            lb == b@.len(),
            la == lb,
            i <= la,
            forall|j: int| 0 <= j < i ==> a@[j] == b@[j],
        decreases la - i,
    {
        if a.get_char(i) != b.get_char(i) {
            return false;
        }
        i = i + 1;
    }
    assert(a@ =~= b@);
    true
}


/// The pieces of `s` between commas, in order; a string without commas is
/// one piece, and an empty string is one empty piece.
pub open spec fn split_commas(s: Seq<char>) -> Seq<Seq<char>>
    decreases s.len(),
{
    if s.len() == 0 {
        seq![Seq::empty()]
    } else {
        let pieces = split_commas(s.drop_last());
        if s.last() == ',' {
            pieces.push(Seq::empty())
        } else {
            pieces.update(pieces.len() - 1, pieces.last().push(s.last()))
        }
    }
}

/// The pieces written one after the other with a comma between each two.
pub open spec fn join_commas(pieces: Seq<Seq<char>>) -> Seq<char>
    decreases pieces.len(),
{
    if pieces.len() == 0 {
        Seq::empty()
    } else if pieces.len() == 1 {
        pieces[0]
    } else {
        join_commas(pieces.drop_last()) + seq![','] + pieces.last()
    }
}

/// The views of a list of string slices.
pub open spec fn str_views(v: Seq<&str>) -> Seq<Seq<char>> {
    v.map_values(|s: &str| s@)
}

/// Splits `s` at every comma.
pub fn split_at_commas<'a>(s: &'a str) -> (pieces: Vec<&'a str>)
    ensures
        str_views(pieces@) == split_commas(s@),
{
    let len = s.unicode_len();
    let mut pieces: Vec<&'a str> = Vec::new();
    let mut start: usize = 0;
    let mut i: usize = 0;
    assert(s@.take(0) =~= Seq::<char>::empty());
    assert(str_views(pieces@).push(s@.subrange(0, 0)) =~= seq![Seq::<char>::empty()]);
    while i < len
        invariant
            len == s@.len(),
            start <= i <= len,
            split_commas(s@.take(i as int)) == str_views(pieces@).push(s@.subrange(start as int, i as int)),
        decreases len - i,
    {
        let c = s.get_char(i);
        let ghost prev = pieces@;
        assert(s@.take(i + 1).drop_last() =~= s@.take(i as int));
        assert(s@.take(i + 1).last() == c);
        if c == ',' {
            let piece = s.substring_char(start, i);
            pieces.push(piece);
            start = i + 1;
            assert(str_views(pieces@) =~= str_views(prev).push(piece@));
            assert(s@.subrange(start as int, i + 1) =~= Seq::<char>::empty());
            assert(split_commas(s@.take(i + 1)) =~= str_views(pieces@).push(s@.subrange(start as int, i + 1)));
        } else {
            assert(s@.subrange(start as int, i + 1) =~= s@.subrange(start as int, i as int).push(c));
            let ghost before = str_views(pieces@).push(s@.subrange(start as int, i as int));
            assert(before.update(before.len() - 1, before.last().push(c)) =~= str_views(pieces@).push(
                s@.subrange(start as int, i + 1),
            ));
            assert(split_commas(s@.take(i + 1)) =~= str_views(pieces@).push(s@.subrange(start as int, i + 1)));
        }
        i = i + 1;
    }
    let ghost prev = pieces@;
    let piece = s.substring_char(start, len);
    pieces.push(piece);
    assert(s@.take(len as int) =~= s@);
    assert(str_views(pieces@) =~= str_views(prev).push(piece@));
    pieces
}

/// Writes the pieces one after the other with a comma between each two.
pub fn join_with_commas(pieces: &Vec<String>) -> (joined: String)
    ensures
        joined@ == join_commas(pieces@.map_values(|p: String| p@)),
{
    let ghost all = pieces@.map_values(|p: String| p@);
    let mut joined = String::new();
    let mut i: usize = 0;
    while i < pieces.len()
        invariant
            i <= pieces.len(),
            all == pieces@.map_values(|p: String| p@),
            joined@ == join_commas(all.take(i as int)),
        decreases pieces.len() - i,
    {
        proof {
            reveal_strlit(",");
        }
        assert(all.take(i + 1).drop_last() =~= all.take(i as int));
        if i != 0 {
            joined.append(",");
        }
        joined.append(pieces[i].as_str());
        assert(joined@ =~= join_commas(all.take(i + 1)));
        i = i + 1;
    }
    assert(all.take(pieces.len() as int) =~= all);
    joined
}

} // verus!
