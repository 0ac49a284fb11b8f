use vstd::prelude::*;

use crate::base::Base;
use crate::rewriter::{rewrite_spec, strands_view, Rewriter};
use crate::strand::Strand;
use crate::translator::{translate_spec, Translator};

verus! {

#[verifier::external_type_specification]
#[verifier::external_body]
pub struct ExThreadRng(rand::rngs::ThreadRng);

/// Relies on `rand::Rng::gen_range`: a value drawn from `0..n`; it panics on
/// an empty range, so `n` must be positive.
#[verifier::external_body]
fn draw_below(rng: &mut rand::rngs::ThreadRng, n: usize) -> (r: usize)
    requires
        n > 0,
    ensures
        r < n,
{
    rand::Rng::gen_range(rng, 0..n)
}

/// The kinds of random edit, drawn with weights of 80, 10 and 10 in a hundred.
#[derive(Debug, PartialEq, Eq, Structural, Clone, Copy)]
pub enum EditType {
    Mutate,
    Insert,
    Delete,
}

pub const PERCENT_MUTATE: usize = 80;

pub const PERCENT_INSERT: usize = 10;

impl EditType {
    /// The edit that a draw out of a hundred selects.
    pub open spec fn of_draw_spec(k: nat) -> EditType {
        if k < PERCENT_MUTATE {
            EditType::Mutate
        } else if k < PERCENT_MUTATE + PERCENT_INSERT {
            EditType::Insert
        } else {
            EditType::Delete
        }
    }

    pub fn of_draw(k: usize) -> (r: EditType)
        ensures
            r == EditType::of_draw_spec(k as nat),
    {
        if k < PERCENT_MUTATE {
            EditType::Mutate
        } else if k < PERCENT_MUTATE + PERCENT_INSERT {
            EditType::Insert
        } else {
            EditType::Delete
        }
    }
}

/// Whether `r` is `s` with one base replaced by another.
pub open spec fn is_mutation_of(r: Seq<Base>, s: Seq<Base>) -> bool {
    exists|i: int, b: Base| 0 <= i < s.len() && b != s[i] && r == s.update(i, b)
}

/// Whether `r` is `s` with one base inserted.
pub open spec fn is_insertion_of(r: Seq<Base>, s: Seq<Base>) -> bool {
    exists|i: int, b: Base| 0 <= i <= s.len() && r == s.insert(i, b)
}

/// Whether `r` is `s` with one base removed.
pub open spec fn is_deletion_of(r: Seq<Base>, s: Seq<Base>) -> bool {
    exists|i: int| 0 <= i < s.len() && r == s.remove(i)
}

/// The three bases other than `b`, in the order A, C, G, T.
pub open spec fn other_bases(b: Base) -> Seq<Base> {
    match b {
        Base::A => seq![Base::C, Base::G, Base::T],
        Base::C => seq![Base::A, Base::G, Base::T],
        Base::G => seq![Base::A, Base::C, Base::T],
        Base::T => seq![Base::A, Base::C, Base::G],
    }
}

/// Random point edits of strands.
pub struct Editor;

impl Editor {
    /// The `k`-th of the three bases other than `b`, in the order A, C, G, T.
    pub fn other_base(b: Base, k: usize) -> (r: Base)
        requires
            k < 3,
        ensures
            r == other_bases(b)[k as int],
            r != b,
    {
        let skip: usize = match b {
            Base::A => 0,
            Base::C => 1,
            Base::G => 2,
            Base::T => 3,
        };
        let i = if k < skip { k } else { k + 1 };
        match i {
            0 => Base::A,
            1 => Base::C,
            2 => Base::G,
            _ => Base::T,
        }
    }

    /// The strand with the base at `index` replaced by `base`.
    pub fn mutate_at(strand: &Strand, index: usize, base: Base) -> (r: Strand)
        requires
            index < strand@.len(),
        ensures
            r@ == strand@.update(index as int, base),
    {
        let mut bases = strand.clone_bases();
        bases.set(index, base);
        Strand::new(bases)
    }

    /// The strand with `base` inserted before position `index`.
    pub fn insert_at(strand: &Strand, index: usize, base: Base) -> (r: Strand)
        requires
            index <= strand@.len(),
        ensures
            r@ == strand@.insert(index as int, base),
    {
        let mut bases = strand.clone_bases();
        bases.insert(index, base);
        Strand::new(bases)
    }

    /// The strand with the base at `index` removed.
    pub fn delete_at(strand: &Strand, index: usize) -> (r: Strand)
        requires
            index < strand@.len(),
        ensures
            r@ == strand@.remove(index as int),
    {
        let mut bases = strand.clone_bases();
        bases.remove(index);
        Strand::new(bases)
    }

    /// A random edit of a strand with at least one base.
    pub fn edit(strand: &Strand, rng: &mut rand::rngs::ThreadRng) -> (r: Strand)
        requires
            strand@.len() > 0,
            strand@.len() < usize::MAX,
        ensures
            is_mutation_of(r@, strand@) || is_insertion_of(r@, strand@) || is_deletion_of(
                r@,
                strand@,
            ),
    {
        let edit_type = Self::select_edit_type(rng);
        match edit_type {
            EditType::Mutate => Self::mutate(strand, rng),
            EditType::Insert => Self::insert(strand, rng),
            EditType::Delete => Self::delete(strand, rng),
        }
    }

    /// Replaces a random base by one of the three others.
    pub fn mutate(strand: &Strand, rng: &mut rand::rngs::ThreadRng) -> (r: Strand)
        requires
            strand@.len() > 0,
        ensures
            is_mutation_of(r@, strand@),
    {
        let index = draw_below(rng, strand.len());
        let k = draw_below(rng, 3);
        let current = strand.iter_bases()[index];
        let base = Self::other_base(current, k);
        let r = Self::mutate_at(strand, index, base);
        assert(base != strand@[index as int] && r@ == strand@.update(index as int, base));
        r
    }

    /// Inserts a random base at a random position.
    pub fn insert(strand: &Strand, rng: &mut rand::rngs::ThreadRng) -> (r: Strand)
        requires
            strand@.len() < usize::MAX,
        ensures
            is_insertion_of(r@, strand@),
    {
        let index = draw_below(rng, strand.len() + 1);
        let k = draw_below(rng, 4);
        let base = match k {
            0 => Base::A,
            1 => Base::C,
            2 => Base::G,
            _ => Base::T,
        };
        let r = Self::insert_at(strand, index, base);
        assert(r@ == strand@.insert(index as int, base));
        r
    }

    /// Removes the base at a random position.
    pub fn delete(strand: &Strand, rng: &mut rand::rngs::ThreadRng) -> (r: Strand)
        requires
            strand@.len() > 0,
        ensures
            is_deletion_of(r@, strand@),
    {
        let index = draw_below(rng, strand.len());
        let r = Self::delete_at(strand, index);
        assert(r@ == strand@.remove(index as int));
        r
    }

    fn select_edit_type(rng: &mut rand::rngs::ThreadRng) -> (r: EditType) {
        let k = draw_below(rng, 100);
        EditType::of_draw(k)
    }
}

/// Whether strand `j` of the list comes out of rewriting an earlier strand
/// with an enzyme of an earlier strand.
pub open spec fn is_discovered(ss: Seq<Seq<Base>>, j: int) -> bool {
    exists|a: int, b: int, k: int|
        0 <= a < j && 0 <= b < j && 0 <= k < translate_spec(ss[a]).len() && #[trigger] rewrite_spec(
            translate_spec(ss[a])[k],
            ss[b],
        ).contains(ss[j])
}

/// Whether no strand occurs twice in the list.
pub open spec fn distinct(ss: Seq<Seq<Base>>) -> bool {
    forall|i: int, j: int| 0 <= i < j < ss.len() ==> ss[i] != ss[j]
}

/// The list `known` followed by each strand of `found` that is not already
/// there, once each and in the order of `found`.
pub open spec fn add_new(known: Seq<Seq<Base>>, found: Seq<Seq<Base>>) -> Seq<Seq<Base>>
    decreases found.len(),
{
    if found.len() == 0 {
        known
    } else {
        let prev = add_new(known, found.drop_last());
        if prev.contains(found.last()) {
            prev
        } else {
            prev.push(found.last())
        }
    }
}

/// One step of the walk: the known strands after rewriting strand `b` with
/// enzyme `k` of strand `a`; unchanged where strand `a` has no enzyme `k`.
pub open spec fn walk_step(known: Seq<Seq<Base>>, a: int, k: int, b: int) -> Seq<Seq<Base>> {
    if k < translate_spec(known[a]).len() {
        add_new(known, rewrite_spec(translate_spec(known[a])[k], known[b]))
    } else {
        known
    }
}

/// Adding new strands keeps what was known in front, adds only strands of
/// `found`, and repeats none.
proof fn lemma_add_new(known: Seq<Seq<Base>>, found: Seq<Seq<Base>>)
    requires
        distinct(known),
    ensures
        add_new(known, found).len() >= known.len(),
        add_new(known, found).take(known.len() as int) == known,
        distinct(add_new(known, found)),
        forall|j: int|
            known.len() <= j < add_new(known, found).len() ==> found.contains(
                #[trigger] add_new(known, found)[j],
            ),
    decreases found.len(),
{
    if found.len() == 0 {
        assert(known.take(known.len() as int) =~= known);
    } else {
        let prev = add_new(known, found.drop_last());
        lemma_add_new(known, found.drop_last());
        assert forall|j: int| known.len() <= j < prev.len() implies found.contains(
            #[trigger] prev[j],
        ) by {
            let i = choose|i: int| 0 <= i < found.drop_last().len() && found.drop_last()[i] == prev[j];
            assert(found[i] == prev[j]);
        }
        if !prev.contains(found.last()) {
            let r = prev.push(found.last());
            assert(r.take(known.len() as int) =~= prev.take(known.len() as int));
            assert forall|i: int, j: int| 0 <= i < j < r.len() implies r[i] != r[j] by {
                if j == prev.len() {
                    assert(prev[i] == r[i]);
                }
            }
            assert forall|j: int| known.len() <= j < r.len() implies found.contains(#[trigger] r[j]) by {
                if j == prev.len() {
                    assert(found[found.len() - 1] == r[j]);
                } else {
                    assert(r[j] == prev[j]);
                }
            }
        }
    }
}

/// Random walks over the strands that enzymes produce.
pub struct SearchAlgos;

impl SearchAlgos {
    /// Whether the list holds a strand equal to `s`.
    pub fn contains(strands: &Vec<Strand>, s: &Strand) -> (r: bool)
        ensures
            r == strands_view(strands@).contains(s@),
    {
        for i in 0..strands.len()
            invariant
                forall|j: int| 0 <= j < i ==> strands@[j]@ != s@,
        {
            if strands[i] == *s {
                assert(strands_view(strands@)[i as int] == s@);
                return true;
            }
        }
        assert forall|j: int| 0 <= j < strands_view(strands@).len() implies strands_view(strands@)[j]
            != s@ by {
            assert(strands_view(strands@)[j] == strands@[j]@);
        }
        false
    }

    /// Rewrites strand `b` with enzyme `k` of strand `a`, and adds each
    /// strand that comes out and is not known yet. The known strands are kept
    /// in a list whose distinctness is part of the contract; membership is
    /// decided by strand equality.
    pub fn step(strands: &mut Vec<Strand>, a: usize, k: usize, b: usize)
        requires
            a < old(strands)@.len(),
            b < old(strands)@.len(),
        ensures
            strands_view(final(strands)@) == walk_step(
                strands_view(old(strands)@),
                a as int,
                k as int,
                b as int,
            ),
    {
        let ghost known = strands_view(strands@);
        let enzymes = Translator::translate(&strands[a]);
        assert(known[a as int] == strands@[a as int]@);
        assert(known[b as int] == strands@[b as int]@);
        if k >= enzymes.len() {
            return;
        }
        let found = Rewriter::rewrite(&enzymes[k], &strands[b]);
        assert(enzymes@[k as int]@ == translate_spec(known[a as int])[k as int]) by {
            assert(crate::translator::enzymes_view(enzymes@)[k as int] == enzymes@[k as int]@);
        }
        let ghost outs = strands_view(found@);
        assert(outs.take(0) =~= Seq::<Seq<Base>>::empty());
        for m in 0..found.len()
            invariant
                outs == strands_view(found@),
                strands_view(strands@) == add_new(known, outs.take(m as int)),
        {
            assert(outs.take(m + 1).drop_last() =~= outs.take(m as int));
            assert(outs[m as int] == found@[m as int]@);
            if !Self::contains(&strands, &found[m]) {
                let ghost before = strands@;
                strands.push(found[m].clone());
                assert(strands_view(strands@) =~= strands_view(before).push(found@[m as int]@));
            }
        }
        assert(outs.take(outs.len() as int) =~= outs);
    }

    /// Runs `n_iterations` random steps from `init_strand`: each step rewrites
    /// a random known strand with a random enzyme of a random known strand.
    /// The result lists the distinct strands found, in order of discovery,
    /// the first being `init_strand`.
    pub fn random(
        init_strand: &Strand,
        n_iterations: i32,
        rng: &mut rand::rngs::ThreadRng,
    ) -> (r: Vec<Strand>)
        ensures
            r@.len() >= 1,
            r@[0]@ == init_strand@,
            n_iterations <= 0 ==> r@.len() == 1,
            translate_spec(init_strand@).len() == 0 ==> r@.len() == 1,
            distinct(strands_view(r@)),
            forall|j: int| 1 <= j < r@.len() ==> is_discovered(strands_view(r@), j),
    {
        let mut strands: Vec<Strand> = vec![init_strand.clone()];
        let mut iteration: i32 = 0;
        while iteration < n_iterations
            invariant
                strands@.len() >= 1,
                strands@[0]@ == init_strand@,
                translate_spec(init_strand@).len() == 0 ==> strands@.len() == 1,
                0 <= iteration,
                n_iterations <= 0 ==> strands@.len() == 1,
                distinct(strands_view(strands@)),
                forall|j: int| 1 <= j < strands@.len() ==> is_discovered(strands_view(strands@), j),
            decreases n_iterations - iteration,
        {
            iteration = iteration + 1;
            let a = draw_below(rng, strands.len());
            let enzymes = Translator::translate(&strands[a]);
            let n_enzymes = enzymes.len();
            let ghost known = strands_view(strands@);
            assert(known[a as int] == strands@[a as int]@);
            assert(n_enzymes == translate_spec(known[a as int]).len()) by {
                assert(crate::translator::enzymes_view(enzymes@).len() == enzymes@.len());
            }
            if n_enzymes == 0 {
                continue;
            }
            let k = draw_below(rng, n_enzymes);
            let b = draw_below(rng, strands.len());
            Self::step(&mut strands, a, k, b);
            proof {
                let outs = rewrite_spec(translate_spec(known[a as int])[k as int], known[b as int]);
                lemma_add_new(known, outs);
                let after = strands_view(strands@);
                assert(after == add_new(known, outs));
                assert forall|x: int| 0 <= x < known.len() implies after[x] == known[x] by {
                    assert(after.take(known.len() as int)[x] == after[x]);
                }
                assert(strands@[0]@ == after[0]);
                assert(known[0] == init_strand@);
                assert forall|j: int| 1 <= j < after.len() implies is_discovered(after, j) by {
                    if j < known.len() {
                        assert(is_discovered(known, j));
                        let (a1, b1, k1) = choose|a1: int, b1: int, k1: int|
                            0 <= a1 < j && 0 <= b1 < j && 0 <= k1 < translate_spec(known[a1]).len()
                                && #[trigger] rewrite_spec(
                                translate_spec(known[a1])[k1],
                                known[b1],
                            ).contains(known[j]);
                        assert(after[a1] == known[a1] && after[b1] == known[b1] && after[j]
                            == known[j]);
                        assert(rewrite_spec(translate_spec(after[a1])[k1], after[b1]).contains(
                            after[j],
                        ));
                    } else {
                        assert(outs.contains(after[j]));
                        assert(after[a as int] == known[a as int]);
                        assert(after[b as int] == known[b as int]);
                        assert(rewrite_spec(
                            translate_spec(after[a as int])[k as int],
                            after[b as int],
                        ).contains(after[j]));
                    }
                }
            }
        }
        strands
    }
}

} // verus!
