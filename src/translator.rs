use vstd::prelude::*;

use crate::amino_acid::AminoAcid;
use crate::base::{Base, Duplet};
use crate::enzyme::Enzyme;
use crate::strand::{duplets_of, Strand};

verus! {

/// The amino acid that a duplet codes for; `None` for the punctuation duplet AA.
pub open spec fn amino_acid_of_duplet(d: Duplet) -> Option<AminoAcid> {
    match d {
        (Base::A, Base::A) => None,
        (Base::A, Base::C) => Some(AminoAcid::Cut),
        (Base::A, Base::G) => Some(AminoAcid::Del),
        (Base::A, Base::T) => Some(AminoAcid::Swi),
        (Base::C, Base::A) => Some(AminoAcid::Mvr),
        (Base::C, Base::C) => Some(AminoAcid::Mvl),
        (Base::C, Base::G) => Some(AminoAcid::Cop),
        (Base::C, Base::T) => Some(AminoAcid::Off),
        (Base::G, Base::A) => Some(AminoAcid::Ina),
        (Base::G, Base::C) => Some(AminoAcid::Inc),
        (Base::G, Base::G) => Some(AminoAcid::Ing),
        (Base::G, Base::T) => Some(AminoAcid::Int),
        (Base::T, Base::A) => Some(AminoAcid::Rpy),
        (Base::T, Base::C) => Some(AminoAcid::Rpu),
        (Base::T, Base::G) => Some(AminoAcid::Lpy),
        (Base::T, Base::T) => Some(AminoAcid::Lpu),
    }
}

/// Scans duplets left to right: the enzymes already closed by punctuation,
/// and the amino acids gathered since the last punctuation.
pub open spec fn translate_scan(ds: Seq<Duplet>) -> (Seq<Seq<AminoAcid>>, Seq<AminoAcid>)
    decreases ds.len(),
{
    if ds.len() == 0 {
        (Seq::empty(), Seq::empty())
    } else {
        let (done, buf) = translate_scan(ds.drop_last());
        match amino_acid_of_duplet(ds.last()) {
            Some(a) => (done, buf.push(a)),
            None => if buf.len() > 0 {
                (done.push(buf), Seq::empty())
            } else {
                (done, buf)
            },
        }
    }
}

/// The enzymes that a strand codes for, in order: runs of coding duplets
/// between punctuation, with empty runs left out.
pub open spec fn translate_spec(bs: Seq<Base>) -> Seq<Seq<AminoAcid>> {
    let (done, buf) = translate_scan(duplets_of(bs));
    if buf.len() > 0 {
        done.push(buf)
    } else {
        done
    }
}

pub open spec fn enzymes_view(es: Seq<Enzyme>) -> Seq<Seq<AminoAcid>> {
    es.map_values(|e: Enzyme| e@)
}

/// The number of duplets that code for an amino acid.
pub open spec fn coding_count(ds: Seq<Duplet>) -> nat
    decreases ds.len(),
{
    if ds.len() == 0 {
        0
    } else {
        coding_count(ds.drop_last()) + if amino_acid_of_duplet(ds.last()).is_some() {
            1nat
        } else {
            0nat
        }
    }
}

/// The number of amino acids over all the enzymes.
pub open spec fn total_length(es: Seq<Seq<AminoAcid>>) -> nat
    decreases es.len(),
{
    if es.len() == 0 {
        0
    } else {
        total_length(es.drop_last()) + es.last().len()
    }
}

/// Reads strands into enzymes.
pub struct Translator;

impl Translator {
    /// The enzymes that the strand codes for.
    pub fn translate(strand: &Strand) -> (r: Vec<Enzyme>)
        ensures
            enzymes_view(r@) == translate_spec(strand@),
    {
        let duplets = strand.iter_duplets();
        let mut enzymes: Vec<Enzyme> = Vec::new();
        let mut amino_acids: Vec<AminoAcid> = Vec::new();
        for i in 0..duplets.len()
            invariant
                duplets@ == duplets_of(strand@),
                translate_scan(duplets@.take(i as int)) == (enzymes_view(enzymes@), amino_acids@),
        {
            assert(duplets@.take(i + 1).drop_last() =~= duplets@.take(i as int));
            assert(duplets@.take(i + 1).last() == duplets@[i as int]);
            match Self::translate_duplet(duplets[i]) {
                Some(a) => amino_acids.push(a),
                None => {
                    if amino_acids.len() > 0 {
                        enzymes.push(Enzyme::new(amino_acids));
                        amino_acids = Vec::new();
                    }
                },
            }
            assert(enzymes_view(enzymes@) =~= translate_scan(duplets@.take(i + 1)).0);
            assert(amino_acids@ =~= translate_scan(duplets@.take(i + 1)).1);
        }
        assert(duplets@.take(duplets@.len() as int) =~= duplets@);
        if amino_acids.len() > 0 {
            enzymes.push(Enzyme::new(amino_acids));
        }
        assert(enzymes_view(enzymes@) =~= translate_spec(strand@));
        enzymes
    }

    pub fn translate_duplet(duplet: Duplet) -> (r: Option<AminoAcid>)
        ensures
            r == amino_acid_of_duplet(duplet),
    {
        match duplet {
            (Base::A, Base::A) => None,
            (Base::A, Base::C) => Some(AminoAcid::Cut),
            (Base::A, Base::G) => Some(AminoAcid::Del),
            (Base::A, Base::T) => Some(AminoAcid::Swi),
            (Base::C, Base::A) => Some(AminoAcid::Mvr),
            (Base::C, Base::C) => Some(AminoAcid::Mvl),
            (Base::C, Base::G) => Some(AminoAcid::Cop),
            (Base::C, Base::T) => Some(AminoAcid::Off),
            (Base::G, Base::A) => Some(AminoAcid::Ina),
            (Base::G, Base::C) => Some(AminoAcid::Inc),
            (Base::G, Base::G) => Some(AminoAcid::Ing),
            (Base::G, Base::T) => Some(AminoAcid::Int),
            (Base::T, Base::A) => Some(AminoAcid::Rpy),
            (Base::T, Base::C) => Some(AminoAcid::Rpu),
            (Base::T, Base::G) => Some(AminoAcid::Lpy),
            (Base::T, Base::T) => Some(AminoAcid::Lpu),
        }
    }
}

proof fn lemma_scan_counts(ds: Seq<Duplet>)
    ensures
        total_length(translate_scan(ds).0) + translate_scan(ds).1.len() == coding_count(ds),
        forall|j: int|
            0 <= j < translate_scan(ds).0.len() ==> (#[trigger] translate_scan(ds).0[j]).len() > 0,
    decreases ds.len(),
{
    if ds.len() > 0 {
        lemma_scan_counts(ds.drop_last());
        let (done, buf) = translate_scan(ds.drop_last());
        if amino_acid_of_duplet(ds.last()).is_none() && buf.len() > 0 {
            assert(done.push(buf).drop_last() =~= done);
        }
    }
}

/// The enzymes of a strand hold, together, as many amino acids as the strand
/// has coding duplets; and none of them is empty.
pub proof fn lemma_translate_counts_amino_acids(bs: Seq<Base>)
    ensures
        total_length(translate_spec(bs)) == coding_count(duplets_of(bs)),
        forall|j: int|
            0 <= j < translate_spec(bs).len() ==> (#[trigger] translate_spec(bs)[j]).len() > 0,
{
    let ds = duplets_of(bs);
    lemma_scan_counts(ds);
    let (done, buf) = translate_scan(ds);
    if buf.len() > 0 {
        assert(done.push(buf).drop_last() =~= done);
    }
}

} // verus!
