use vstd::prelude::*;

use crate::amino_acid::{amino_acid_of_name, lemma_name_round_trip, AminoAcid};

verus! {

/// The pieces of a text between hyphens, in order; a text without a hyphen
/// is one piece, and an empty text is one empty piece.
pub open spec fn split_dash(cs: Seq<char>) -> Seq<Seq<char>>
    decreases cs.len(),
{
    if cs.len() == 0 {
        seq![Seq::empty()]
    } else {
        let prev = split_dash(cs.drop_last());
        if cs.last() == '-' {
            prev.push(Seq::empty())
        } else {
            prev.update(prev.len() - 1, prev.last().push(cs.last()))
        }
    }
}

/// The amino acids that a hyphen-joined text of short names stands for;
/// `None` where any piece is not a short name.
pub open spec fn enzyme_of_text(cs: Seq<char>) -> Option<Seq<AminoAcid>> {
    let pieces = split_dash(cs);
    if all_names(pieces) {
        Some(pieces.map_values(|p: Seq<char>| amino_acid_of_name(p).unwrap()))
    } else {
        None
    }
}

/// Whether every piece is a short name.
pub open spec fn all_names(pieces: Seq<Seq<char>>) -> bool {
    forall|j: int| 0 <= j < pieces.len() ==> (#[trigger] amino_acid_of_name(pieces[j])).is_some()
}

/// The canonical text of a sequence of amino acids: their short names joined by hyphens.
pub open spec fn enzyme_text(aas: Seq<AminoAcid>) -> Seq<char>
    decreases aas.len(),
{
    if aas.len() == 0 {
        Seq::empty()
    } else if aas.len() == 1 {
        aas[0].name()
    } else {
        enzyme_text(aas.drop_last()) + seq!['-'] + aas.last().name()
    }
}

/// An ordered sequence of amino acids: a program that rewrites strands.
#[derive(Debug)]
pub struct Enzyme {
    amino_acids: Vec<AminoAcid>,
}

impl View for Enzyme {
    type V = Seq<AminoAcid>;

    closed spec fn view(&self) -> Seq<AminoAcid> {
        self.amino_acids@
    }
}

impl Clone for Enzyme {
    fn clone(&self) -> (r: Enzyme)
        ensures
            r@ == self@,
    {
        Enzyme { amino_acids: self.amino_acids.clone() }
    }
}

impl PartialEq for Enzyme {
    fn eq(&self, other: &Enzyme) -> (r: bool) {
        let n = self.amino_acids.len();
        if n != other.amino_acids.len() {
            return false;
        }
        let mut i: usize = 0;
        while i < n
            invariant
                n == self@.len(),
                n == other@.len(),
                i <= n,
                self@.take(i as int) == other@.take(i as int),
            decreases n - i,
        {
            if self.amino_acids[i] != other.amino_acids[i] {
                assert(self@[i as int] != other@[i as int]);
                return false;
            }
            assert(self@.take(i + 1) =~= self@.take(i as int).push(self@[i as int]));
            assert(other@.take(i + 1) =~= other@.take(i as int).push(other@[i as int]));
            i = i + 1;
        }
        assert(self@ =~= self@.take(n as int));
        assert(other@ =~= other@.take(n as int));
        true
    }
}

impl vstd::std_specs::cmp::PartialEqSpecImpl for Enzyme {
    open spec fn obeys_eq_spec() -> bool {
        true
    }

    open spec fn eq_spec(&self, other: &Enzyme) -> bool {
        self@ == other@
    }
}

impl Eq for Enzyme {
}

impl Enzyme {
    pub fn new(amino_acids: Vec<AminoAcid>) -> (r: Enzyme)
        ensures
            r@ == amino_acids@,
    {
        Enzyme { amino_acids }
    }

    /// The enzyme that short names joined by hyphens stand for; every piece
    /// must be a short name.
    pub fn from_string(enzyme_str: &str) -> (r: Enzyme)
        requires
            enzyme_of_text(enzyme_str@) is Some,
        ensures
            Some(r@) == enzyme_of_text(enzyme_str@),
    {
        Enzyme::parse(enzyme_str).unwrap()
    }

    /// Reads an enzyme from short names joined by hyphens; `None` where any
    /// piece is not a short name.
    pub fn parse(enzyme_str: &str) -> (r: Option<Enzyme>)
        ensures
            r.is_some() == enzyme_of_text(enzyme_str@).is_some(),
            r matches Some(e) ==> e@ == enzyme_of_text(enzyme_str@).unwrap(),
    {
        let n = enzyme_str.unicode_len();
        let mut acids: Vec<AminoAcid> = Vec::new();
        let mut piece: Vec<char> = Vec::new();
        let mut ok = true;
        let ghost mut done: Seq<Seq<char>> = Seq::empty();
        assert(enzyme_str@.take(0) =~= Seq::<char>::empty());
        for i in 0..n
            invariant
                n == enzyme_str@.len(),
                split_dash(enzyme_str@.take(i as int)) == done.push(piece@),
                ok == all_names(done),
                ok ==> acids@ == done.map_values(|p: Seq<char>| amino_acid_of_name(p).unwrap()),
        {
            let c = enzyme_str.get_char(i);
            assert(enzyme_str@.take(i + 1).drop_last() =~= enzyme_str@.take(i as int));
            assert(enzyme_str@.take(i + 1).last() == c);
            if c == '-' {
                let parsed = AminoAcid::from_chars(&piece);
                proof {
                    lemma_all_names_push(done, piece@);
                    done = done.push(piece@);
                }
                match parsed {
                    Some(a) => {
                        if ok {
                            acids.push(a);
                        }
                    },
                    None => ok = false,
                }
                piece = Vec::new();
                assert(split_dash(enzyme_str@.take(i + 1)) =~= done.push(piece@));
            } else {
                piece.push(c);
                assert(split_dash(enzyme_str@.take(i + 1)) =~= done.push(piece@));
            }
            assert(ok ==> acids@ =~= done.map_values(
                |p: Seq<char>| amino_acid_of_name(p).unwrap(),
            ));
        }
        let parsed = AminoAcid::from_chars(&piece);
        proof {
            lemma_all_names_push(done, piece@);
            done = done.push(piece@);
        }
        match parsed {
            Some(a) => {
                if ok {
                    acids.push(a);
                }
            },
            None => ok = false,
        }
        assert(enzyme_str@.take(n as int) =~= enzyme_str@);
        assert(ok ==> acids@ =~= done.map_values(|p: Seq<char>| amino_acid_of_name(p).unwrap()));
        if ok {
            Some(Enzyme { amino_acids: acids })
        } else {
            None
        }
    }

    /// The canonical text: the short names joined by hyphens.
    pub fn format(&self) -> (r: String)
        ensures
            r@ == enzyme_text(self@),
    {
        let mut s = String::new();
        for i in 0..self.amino_acids.len()
            invariant
                s@ == enzyme_text(self@.take(i as int)),
        {
            assert(self@.take(i + 1).drop_last() =~= self@.take(i as int));
            if i > 0 {
                let dash = "-";
                proof {
                    reveal_strlit("-");
                }
                s.append(dash);
            }
            let name = self.amino_acids[i].to_str();
            s.append(name);
            assert(s@ =~= enzyme_text(self@.take(i + 1)));
        }
        assert(self@.take(self@.len() as int) =~= self@);
        s
    }

    pub fn len(&self) -> (r: usize)
        ensures
            r == self@.len(),
    {
        self.amino_acids.len()
    }

    pub fn iter_amino_acids(&self) -> (r: &[AminoAcid])
        ensures
            r@ == self@,
    {
        self.amino_acids.as_slice()
    }
}

proof fn lemma_all_names_push(pieces: Seq<Seq<char>>, p: Seq<char>)
    ensures
        all_names(pieces.push(p)) == (all_names(pieces) && amino_acid_of_name(p).is_some()),
{
    let q = pieces.push(p);
    if all_names(q) {
        assert(q[pieces.len() as int] == p);
        assert forall|j: int| 0 <= j < pieces.len() implies (#[trigger] amino_acid_of_name(
            pieces[j],
        )).is_some() by {
            assert(q[j] == pieces[j]);
        }
    }
    if all_names(pieces) && amino_acid_of_name(p).is_some() {
        assert forall|j: int| 0 <= j < q.len() implies (#[trigger] amino_acid_of_name(
            q[j],
        )).is_some() by {
            if j < pieces.len() {
                assert(q[j] == pieces[j]);
            }
        }
    }
}

proof fn lemma_split_dash_nonempty(cs: Seq<char>)
    ensures
        split_dash(cs).len() >= 1,
    decreases cs.len(),
{
    if cs.len() > 0 {
        lemma_split_dash_nonempty(cs.drop_last());
    }
}

/// Appending text without a hyphen extends the last piece.
proof fn lemma_split_dash_append(x: Seq<char>, n: Seq<char>)
    requires
        !n.contains('-'),
    ensures
        split_dash(x + n) == split_dash(x).update(
            split_dash(x).len() - 1,
            split_dash(x).last() + n,
        ),
    decreases n.len(),
{
    lemma_split_dash_nonempty(x);
    if n.len() == 0 {
        assert(x + n =~= x);
        assert(split_dash(x).last() + n =~= split_dash(x).last());
        assert(split_dash(x).update(split_dash(x).len() - 1, split_dash(x).last())
            =~= split_dash(x));
    } else {
        let m = n.drop_last();
        assert(!m.contains('-')) by {
            if m.contains('-') {
                let k = choose|k: int| 0 <= k < m.len() && m[k] == '-';
                assert(n[k] == '-');
            }
        }
        lemma_split_dash_append(x, m);
        assert((x + n).drop_last() =~= x + m);
        assert((x + n).last() == n.last());
        assert(n.last() != '-') by {
            assert(n[n.len() - 1] == n.last());
        }
        let prev = split_dash(x + m);
        let k = split_dash(x).len() - 1;
        assert(prev.len() == split_dash(x).len());
        assert(prev.last() == split_dash(x).last() + m);
        assert((split_dash(x).last() + m).push(n.last()) =~= split_dash(x).last() + n);
        assert(split_dash(x + n) == prev.update(k, prev.last().push(n.last())));
        assert(split_dash(x + n) =~= split_dash(x).update(
            split_dash(x).len() - 1,
            split_dash(x).last() + n,
        ));
    }
}

proof fn lemma_split_enzyme_text(aas: Seq<AminoAcid>)
    requires
        aas.len() >= 1,
    ensures
        split_dash(enzyme_text(aas)) == aas.map_values(|a: AminoAcid| a.name()),
    decreases aas.len(),
{
    let last = aas.last();
    lemma_name_round_trip(last);
    if aas.len() == 1 {
        assert(split_dash(Seq::empty()) =~= seq![Seq::<char>::empty()]);
        lemma_split_dash_append(Seq::empty(), last.name());
        assert(Seq::<char>::empty() + last.name() =~= last.name());
        assert(aas.map_values(|a: AminoAcid| a.name()) =~= seq![last.name()]);
        assert(split_dash(enzyme_text(aas)) =~= seq![last.name()]);
    } else {
        let prefix = enzyme_text(aas.drop_last());
        lemma_split_enzyme_text(aas.drop_last());
        let with_dash = prefix + seq!['-'];
        assert(with_dash.drop_last() =~= prefix);
        assert(split_dash(with_dash) == split_dash(prefix).push(Seq::empty()));
        lemma_split_dash_append(with_dash, last.name());
        assert(Seq::<char>::empty() + last.name() =~= last.name());
        assert(split_dash(enzyme_text(aas)) =~= split_dash(prefix).push(last.name()));
        assert(aas.map_values(|a: AminoAcid| a.name()) =~= aas.drop_last().map_values(
            |a: AminoAcid| a.name(),
        ).push(last.name()));
    }
}

/// Reading the canonical text of an enzyme with at least one amino acid
/// gives back the enzyme.
pub proof fn lemma_enzyme_round_trip(aas: Seq<AminoAcid>)
    requires
        aas.len() >= 1,
    ensures
        enzyme_of_text(enzyme_text(aas)) == Some(aas),
{
    lemma_split_enzyme_text(aas);
    let pieces = split_dash(enzyme_text(aas));
    assert forall|j: int| 0 <= j < pieces.len() implies (#[trigger] amino_acid_of_name(
        pieces[j],
    )).is_some() by {
        lemma_name_round_trip(aas[j]);
    }
    assert(all_names(pieces));
    assert forall|j: int| 0 <= j < aas.len() implies pieces.map_values(
        |p: Seq<char>| amino_acid_of_name(p).unwrap(),
    )[j] == aas[j] by {
        lemma_name_round_trip(aas[j]);
    }
    assert(pieces.map_values(|p: Seq<char>| amino_acid_of_name(p).unwrap()) =~= aas);
}

} // verus!
