use vstd::prelude::*;

use crate::base::{base_of_char, Base, Duplet};

verus! {

/// The bases that a text stands for: spaces are skipped, and any character
/// other than a base letter or a space makes the text unreadable.
pub open spec fn bases_of_text(cs: Seq<char>) -> Option<Seq<Base>>
    decreases cs.len(),
{
    if cs.len() == 0 {
        Some(Seq::empty())
    } else {
        match bases_of_text(cs.drop_last()) {
            None => None,
            Some(prefix) => {
                let c = cs.last();
                if c == ' ' {
                    Some(prefix)
                } else {
                    match base_of_char(c) {
                        Some(b) => Some(prefix.push(b)),
                        None => None,
                    }
                }
            },
        }
    }
}

/// The canonical text of a sequence of bases: their letters, one after another.
pub open spec fn strand_text(bs: Seq<Base>) -> Seq<char> {
    bs.map_values(|b: Base| b.letter())
}

/// The duplets of a sequence of bases, in order; a trailing odd base is dropped.
pub open spec fn duplets_of(bs: Seq<Base>) -> Seq<Duplet> {
    Seq::new((bs.len() / 2) as nat, |i: int| (bs[2 * i], bs[2 * i + 1]))
}

/// An ordered sequence of bases.
#[derive(Debug)]
pub struct Strand {
    bases: Vec<Base>,
}

impl View for Strand {
    type V = Seq<Base>;

    closed spec fn view(&self) -> Seq<Base> {
        self.bases@
    }
}

impl Clone for Strand {
    fn clone(&self) -> (r: Strand)
        ensures
            r@ == self@,
    {
        Strand { bases: self.bases.clone() }
    }
}

impl PartialEq for Strand {
    fn eq(&self, other: &Strand) -> (r: bool) {
        let n = self.bases.len();
        if n != other.bases.len() {
            return false;
        }
        let mut i: usize = 0;
        while i < n
            invariant
                n == self@.len(),
                n == other@.len(),
                i <= n,
                self@.take(i as int) == other@.take(i as int),
            decreases n - i,
        {
            if self.bases[i] != other.bases[i] {
                assert(self@[i as int] != other@[i as int]);
                return false;
            }
            assert(self@.take(i + 1) =~= self@.take(i as int).push(self@[i as int]));
            assert(other@.take(i + 1) =~= other@.take(i as int).push(other@[i as int]));
            i = i + 1;
        }
        assert(self@ =~= self@.take(n as int));
        assert(other@ =~= other@.take(n as int));
        true
    }
}

impl vstd::std_specs::cmp::PartialEqSpecImpl for Strand {
    open spec fn obeys_eq_spec() -> bool {
        true
    }

    open spec fn eq_spec(&self, other: &Strand) -> bool {
        self@ == other@
    }
}

impl Eq for Strand {
}

impl Strand {
    pub fn new(bases: Vec<Base>) -> (r: Strand)
        ensures
            r@ == bases@,
    {
        Strand { bases }
    }

    /// The strand that a text of base letters and spaces stands for; the
    /// text must hold no other character.
    pub fn from_string(strand_str: &str) -> (r: Strand)
        requires
            bases_of_text(strand_str@) is Some,
        ensures
            Some(r@) == bases_of_text(strand_str@),
    {
        Strand::parse(strand_str).unwrap()
    }

    /// Reads a strand from its text, skipping spaces; `None` where the text
    /// holds any other character than a base letter or a space.
    pub fn parse(strand_str: &str) -> (r: Option<Strand>)
        ensures
            r.is_some() == bases_of_text(strand_str@).is_some(),
            r matches Some(s) ==> s@ == bases_of_text(strand_str@).unwrap(),
    {
        let n = strand_str.unicode_len();
        let mut bases: Vec<Base> = Vec::new();
        let mut ok = true;
        for i in 0..n
            invariant
                n == strand_str@.len(),
                ok == bases_of_text(strand_str@.take(i as int)).is_some(),
                ok ==> bases@ == bases_of_text(strand_str@.take(i as int)).unwrap(),
        {
            let c = strand_str.get_char(i);
            assert(strand_str@.take(i + 1).drop_last() =~= strand_str@.take(i as int));
            assert(strand_str@.take(i + 1).last() == c);
            if ok && c != ' ' {
                match Base::from_char(c) {
                    Some(b) => bases.push(b),
                    None => ok = false,
                }
            }
        }
        assert(strand_str@.take(n as int) =~= strand_str@);
        if ok {
            Some(Strand { bases })
        } else {
            None
        }
    }

    /// The canonical text: the letters of the bases, in order.
    pub fn format(&self) -> (r: String)
        ensures
            r@ == strand_text(self@),
    {
        let mut s = String::new();
        for i in 0..self.bases.len()
            invariant
                s@ == strand_text(self@.take(i as int)),
        {
            let piece = self.bases[i].to_str();
            s.append(piece);
            assert(strand_text(self@.take(i + 1)) =~= strand_text(self@.take(i as int)) + piece@);
        }
        assert(self@.take(self@.len() as int) =~= self@);
        s
    }

    pub fn len(&self) -> (r: usize)
        ensures
            r == self@.len(),
    {
        self.bases.len()
    }

    pub fn iter_bases(&self) -> (r: &[Base])
        ensures
            r@ == self@,
    {
        self.bases.as_slice()
    }

    /// The duplets of the strand, in order; a trailing odd base is dropped.
    pub fn iter_duplets(&self) -> (r: Vec<Duplet>)
        ensures
            r@ == duplets_of(self@),
    {
        let mut r: Vec<Duplet> = Vec::new();
        let len = self.bases.len();
        let n = len / 2;
        let mut i: usize = 0;
        while i < n
            invariant
                n == self@.len() / 2,
                self.bases@.len() == self@.len(),
                len == self@.len(),
                i <= n,
                r@ == duplets_of(self@).take(i as int),
            decreases n - i,
        {
            assert(2 * i + 1 < self.bases@.len());
            r.push((self.bases[2 * i], self.bases[2 * i + 1]));
            assert(duplets_of(self@).take(i + 1) =~= duplets_of(self@).take(i as int).push(
                (self@[2 * i], self@[2 * i + 1]),
            ));
            i = i + 1;
        }
        assert(duplets_of(self@).take(n as int) =~= duplets_of(self@));
        r
    }

    pub fn clone_bases(&self) -> (r: Vec<Base>)
        ensures
            r@ == self@,
    {
        self.bases.clone()
    }
}

/// Reading the canonical text of a strand gives back the strand.
pub proof fn lemma_strand_round_trip(bs: Seq<Base>)
    ensures
        bases_of_text(strand_text(bs)) == Some(bs),
    decreases bs.len(),
{
    if bs.len() > 0 {
        lemma_strand_round_trip(bs.drop_last());
        assert(strand_text(bs).drop_last() =~= strand_text(bs.drop_last()));
        assert(bs.drop_last().push(bs.last()) =~= bs);
    } else {
        assert(strand_text(bs) =~= Seq::empty());
    }
}

} // verus!
