use vstd::prelude::*;

use crate::amino_acid::AminoAcid;
use crate::base::Base;
use crate::enzyme::Enzyme;
use crate::orientation::Orientation;
use crate::strand::Strand;
use crate::turn::Turn;

verus! {

/// The turn that an amino acid makes when an enzyme folds.
pub open spec fn turn_of(a: AminoAcid) -> Turn {
    match a {
        AminoAcid::Cut => Turn::S,
        AminoAcid::Del => Turn::S,
        AminoAcid::Swi => Turn::R,
        AminoAcid::Mvr => Turn::S,
        AminoAcid::Mvl => Turn::S,
        AminoAcid::Cop => Turn::R,
        AminoAcid::Off => Turn::L,
        AminoAcid::Ina => Turn::S,
        AminoAcid::Inc => Turn::R,
        AminoAcid::Ing => Turn::R,
        AminoAcid::Int => Turn::L,
        AminoAcid::Rpy => Turn::R,
        AminoAcid::Rpu => Turn::L,
        AminoAcid::Lpy => Turn::L,
        AminoAcid::Lpu => Turn::L,
    }
}

/// The sum of the turns of a sequence of amino acids.
pub open spec fn sum_turns(aas: Seq<AminoAcid>) -> int
    decreases aas.len(),
{
    if aas.len() == 0 {
        0
    } else {
        sum_turns(aas.drop_last()) + turn_of(aas.last()).value()
    }
}

/// The amino acids between the first and the last; empty for two or fewer.
pub open spec fn interior(aas: Seq<AminoAcid>) -> Seq<AminoAcid> {
    if aas.len() <= 2 {
        Seq::empty()
    } else {
        aas.subrange(1, aas.len() - 1)
    }
}

/// The amino acids whose turns count: the interior ones, or all of them.
pub open spec fn turning_part(aas: Seq<AminoAcid>, interior_only: bool) -> Seq<AminoAcid> {
    if interior_only {
        interior(aas)
    } else {
        aas
    }
}

/// The orientation of a folded enzyme, counting the turns of the interior
/// amino acids only, or of all of them.
pub open spec fn fold_spec_with(aas: Seq<AminoAcid>, interior_only: bool) -> Orientation {
    Orientation::of_turning_number(sum_turns(turning_part(aas, interior_only)))
}

/// The orientation of a folded enzyme, whose first and last amino acids make no turn.
pub open spec fn fold_spec(aas: Seq<AminoAcid>) -> Orientation {
    fold_spec_with(aas, true)
}

/// The base that an enzyme of the given orientation binds to.
pub open spec fn affinity(o: Orientation) -> Base {
    match o {
        Orientation::R => Base::A,
        Orientation::U => Base::C,
        Orientation::D => Base::G,
        Orientation::L => Base::T,
    }
}

/// The index of the first occurrence of `b`, if any.
pub open spec fn first_index_of(bs: Seq<Base>, b: Base) -> Option<int>
    decreases bs.len(),
{
    if bs.len() == 0 {
        None
    } else {
        match first_index_of(bs.drop_last(), b) {
            Some(i) => Some(i),
            None => if bs.last() == b {
                Some(bs.len() - 1)
            } else {
                None
            },
        }
    }
}

/// Where an enzyme folded as `interior_only` says binds on a strand: the
/// first base equal to its affinity.
pub open spec fn binding_site_spec_with(
    aas: Seq<AminoAcid>,
    bs: Seq<Base>,
    interior_only: bool,
) -> Option<int> {
    first_index_of(bs, affinity(fold_spec_with(aas, interior_only)))
}

/// Where an enzyme binds on a strand: the first base equal to its affinity.
pub open spec fn binding_site_spec(aas: Seq<AminoAcid>, bs: Seq<Base>) -> Option<int> {
    binding_site_spec_with(aas, bs, true)
}

/// Folds enzymes and finds where they bind.
pub struct Folder;

impl Folder {
    /// The orientation of the folded enzyme; its first and last amino acids make no turn.
    pub fn fold(enzyme: &Enzyme) -> (r: Orientation)
        ensures
            r == fold_spec(enzyme@),
    {
        Self::fold_with(enzyme, true)
    }

    /// The orientation of the folded enzyme, counting the turns of the
    /// interior amino acids only, or of all of them.
    pub fn fold_with(enzyme: &Enzyme, interior_only: bool) -> (r: Orientation)
        ensures
            r == fold_spec_with(enzyme@, interior_only),
    {
        let aas = enzyme.iter_amino_acids();
        let n = aas.len();
        let (lo, hi): (usize, usize) = if !interior_only {
            (0, n)
        } else if n > 2 {
            (1, n - 1)
        } else {
            (0, 0)
        };
        assert(aas@.subrange(lo as int, hi as int) =~= turning_part(enzyme@, interior_only));
        let mut t: i32 = 0;
        let mut i: usize = lo;
        assert(aas@.subrange(lo as int, lo as int) =~= Seq::<AminoAcid>::empty());
        while i < hi
            invariant
                aas@ == enzyme@,
                n == aas@.len(),
                lo <= i <= hi <= n,
                0 <= t < 4,
                t as int == sum_turns(aas@.subrange(lo as int, i as int)) % 4,
            decreases hi - i,
        {
            let turn = Self::get_turn(&aas[i]);
            assert(aas@.subrange(lo as int, i + 1).drop_last() =~= aas@.subrange(
                lo as int,
                i as int,
            ));
            let v = turn.to_int();
            t = (t + v + 4) % 4;
            i = i + 1;
        }
        Orientation::from_turning_number(t)
    }

    pub fn get_turn(amino_acid: &AminoAcid) -> (r: Turn)
        ensures
            r == turn_of(*amino_acid),
    {
        match amino_acid {
            AminoAcid::Cut => Turn::S,
            AminoAcid::Del => Turn::S,
            AminoAcid::Swi => Turn::R,
            AminoAcid::Mvr => Turn::S,
            AminoAcid::Mvl => Turn::S,
            AminoAcid::Cop => Turn::R,
            AminoAcid::Off => Turn::L,
            AminoAcid::Ina => Turn::S,
            AminoAcid::Inc => Turn::R,
            AminoAcid::Ing => Turn::R,
            AminoAcid::Int => Turn::L,
            AminoAcid::Rpy => Turn::R,
            AminoAcid::Rpu => Turn::L,
            AminoAcid::Lpy => Turn::L,
            AminoAcid::Lpu => Turn::L,
        }
    }

    /// The index of the first base equal to the enzyme's binding affinity.
    pub fn get_binding_site(enzyme: &Enzyme, strand: &Strand) -> (r: Option<usize>)
        ensures
            r matches Some(i) ==> binding_site_spec(enzyme@, strand@) == Some(i as int),
            r is None ==> binding_site_spec(enzyme@, strand@) is None,
    {
        Self::get_binding_site_with(enzyme, strand, true)
    }

    /// The binding site of the enzyme folded as `interior_only` says.
    pub fn get_binding_site_with(enzyme: &Enzyme, strand: &Strand, interior_only: bool) -> (r:
        Option<usize>)
        ensures
            r matches Some(i) ==> binding_site_spec_with(enzyme@, strand@, interior_only) == Some(
                i as int,
            ),
            r is None ==> binding_site_spec_with(enzyme@, strand@, interior_only) is None,
    {
        let orientation = Self::fold_with(enzyme, interior_only);
        let binding_affinity = Self::get_binding_affinity(orientation);
        let bases = strand.iter_bases();
        for i in 0..bases.len()
            invariant
                bases@ == strand@,
                binding_affinity == affinity(fold_spec_with(enzyme@, interior_only)),
                first_index_of(bases@.take(i as int), binding_affinity) is None,
        {
            assert(bases@.take(i + 1).drop_last() =~= bases@.take(i as int));
            if bases[i] == binding_affinity {
                proof {
                    lemma_first_index_prefix(strand@, binding_affinity, i + 1);
                }
                return Some(i);
            }
        }
        assert(bases@.take(bases@.len() as int) =~= bases@);
        None
    }

    pub fn get_binding_affinity(orientation: Orientation) -> (r: Base)
        ensures
            r == affinity(orientation),
    {
        match orientation {
            Orientation::R => Base::A,
            Orientation::U => Base::C,
            Orientation::D => Base::G,
            Orientation::L => Base::T,
        }
    }
}

/// A first occurrence found in a prefix is the first occurrence in the whole.
proof fn lemma_first_index_prefix(bs: Seq<Base>, b: Base, k: int)
    requires
        0 <= k <= bs.len(),
        first_index_of(bs.take(k), b) is Some,
    ensures
        first_index_of(bs, b) == first_index_of(bs.take(k), b),
    decreases bs.len() - k,
{
    if k < bs.len() {
        assert(bs.take(k + 1).drop_last() =~= bs.take(k));
        lemma_first_index_prefix(bs, b, k + 1);
    } else {
        assert(bs.take(k) =~= bs);
    }
}

/// The binding site, where there is one, holds the affinity base, and no
/// earlier base does.
pub proof fn lemma_first_index_of(bs: Seq<Base>, b: Base)
    ensures
        first_index_of(bs, b) matches Some(i) ==> 0 <= i < bs.len() && bs[i] == b && forall|
            j: int,
        |
            0 <= j < i ==> bs[j] != b,
        first_index_of(bs, b) is None ==> forall|j: int| 0 <= j < bs.len() ==> bs[j] != b,
    decreases bs.len(),
{
    if bs.len() > 0 {
        lemma_first_index_of(bs.drop_last(), b);
        assert forall|j: int| 0 <= j < bs.len() - 1 implies bs.drop_last()[j] == bs[j] by {}
    }
}

/// Folding is total: every enzyme has one of the four orientations.
pub proof fn lemma_fold_total(aas: Seq<AminoAcid>)
    ensures
        fold_spec(aas) == Orientation::R || fold_spec(aas) == Orientation::U || fold_spec(aas)
            == Orientation::L || fold_spec(aas) == Orientation::D,
{
}

} // verus!
