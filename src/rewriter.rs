use vstd::prelude::*;

use crate::amino_acid::AminoAcid;
use crate::base::{Base, BaseType};
use crate::base_pair::BasePair;
use crate::enzyme::Enzyme;
use crate::folder::{binding_site_spec, binding_site_spec_with, Folder};
use crate::strand::Strand;

verus! {

pub open spec fn strands_view(ss: Seq<Strand>) -> Seq<Seq<Base>> {
    ss.map_values(|s: Strand| s@)
}

/// Scans a workspace left to right: the strands emitted so far, the current
/// run of primary bases and the current run of complement bases.
pub open spec fn linearize_scan(pairs: Seq<BasePair>) -> (Seq<Seq<Base>>, Seq<Base>, Seq<Base>)
    decreases pairs.len(),
{
    if pairs.len() == 0 {
        (Seq::empty(), Seq::empty(), Seq::empty())
    } else {
        let (out, binds, comps) = linearize_scan(pairs.drop_last());
        let p = pairs.last();
        let (out1, binds1) = match p.bind {
            Some(b) => (out, binds.push(b)),
            None => if binds.len() > 0 {
                (out.push(binds), Seq::empty())
            } else {
                (out, binds)
            },
        };
        match p.comp {
            Some(c) => (out1, binds1, comps.push(c)),
            None => if comps.len() > 0 {
                (out1.push(comps.reverse()), binds1, Seq::empty())
            } else {
                (out1, binds1, comps)
            },
        }
    }
}

/// The strands a workspace falls apart into: each maximal run of primary
/// bases, and each maximal run of complement bases read backwards, in the
/// order in which the runs end from left to right.
pub open spec fn linearize(pairs: Seq<BasePair>) -> Seq<Seq<Base>> {
    let (out, binds, comps) = linearize_scan(pairs);
    let out1 = if binds.len() > 0 {
        out.push(binds)
    } else {
        out
    };
    if comps.len() > 0 {
        out1.push(comps.reverse())
    } else {
        out1
    }
}

/// The glyph that shows a base on the complementary strand: the letter turned over.
pub open spec fn comp_glyph(b: Base) -> char {
    match b {
        Base::A => '∀',
        Base::C => 'Ↄ',
        Base::G => '⅁',
        Base::T => '⊥',
    }
}

/// The picture of one slot of a cell: the base and a space, or two spaces
/// where the slot is empty.
pub open spec fn cell_text(p: BasePair, upper: bool) -> Seq<char> {
    if upper {
        match p.comp {
            Some(c) => seq![comp_glyph(c), ' '],
            None => seq![' ', ' '],
        }
    } else {
        match p.bind {
            Some(b) => seq![b.letter(), ' '],
            None => seq![' ', ' '],
        }
    }
}

/// One row of the picture of a workspace: each cell shows the base in the
/// chosen slot and a space, or two spaces where the slot is empty.
pub open spec fn row_text(pairs: Seq<BasePair>, upper: bool) -> Seq<char>
    decreases pairs.len(),
{
    if pairs.len() == 0 {
        Seq::empty()
    } else {
        row_text(pairs.drop_last(), upper) + cell_text(pairs.last(), upper)
    }
}

/// A two-line picture of a workspace: complement slots above, primary slots below.
pub open spec fn pairs_text(pairs: Seq<BasePair>) -> Seq<char> {
    seq!['[', ' '] + row_text(pairs, true) + seq![']', '\n', '[', ' '] + row_text(pairs, false)
        + seq![']']
}

/// The two choices on which accounts of Typogenetics differ: whether only the
/// interior amino acids turn when an enzyme folds, and whether the cursor
/// moves onto a base that an insertion instruction inserts.
#[derive(Debug, PartialEq, Eq, Structural, Clone, Copy)]
pub struct RewritePolicy {
    pub interior_only: bool,
    pub advance_after_insert: bool,
}

impl RewritePolicy {
    pub open spec fn standard_spec() -> RewritePolicy {
        RewritePolicy { interior_only: true, advance_after_insert: true }
    }

    /// Interior-only folding, and a cursor that rests on the inserted base.
    pub fn standard() -> (r: RewritePolicy)
        ensures
            r == RewritePolicy::standard_spec(),
    {
        RewritePolicy { interior_only: true, advance_after_insert: true }
    }
}

/// The state of a rewrite between two instructions.
pub struct RewriteState {
    pub pairs: Seq<BasePair>,
    pub unit: int,
    pub copy_mode: bool,
    pub emitted: Seq<Seq<Base>>,
    pub halted: bool,
}

pub open spec fn initial_pairs(bs: Seq<Base>) -> Seq<BasePair> {
    bs.map_values(|b: Base| BasePair { bind: Some(b), comp: None })
}

/// The base that an insertion instruction inserts.
pub open spec fn inserted_base(a: AminoAcid) -> Option<Base> {
    match a {
        AminoAcid::Ina => Some(Base::A),
        AminoAcid::Inc => Some(Base::C),
        AminoAcid::Ing => Some(Base::G),
        AminoAcid::Int => Some(Base::T),
        _ => None,
    }
}

/// The kind of base that a search instruction looks for.
pub open spec fn searched_type(a: AminoAcid) -> BaseType {
    match a {
        AminoAcid::Rpy | AminoAcid::Lpy => BaseType::Pyrimidine,
        _ => BaseType::Purine,
    }
}

/// Whether the instruction searches for a kind of base.
pub open spec fn is_search(a: AminoAcid) -> bool {
    a == AminoAcid::Rpy || a == AminoAcid::Rpu || a == AminoAcid::Lpy || a == AminoAcid::Lpu
}

/// The step that a motion or search instruction takes: +1 to the right, -1 to the left.
pub open spec fn direction(a: AminoAcid) -> int {
    match a {
        AminoAcid::Mvr | AminoAcid::Rpy | AminoAcid::Rpu => 1,
        _ => -1,
    }
}

/// Whether the cursor may rest on index `i`: it lies in the workspace and the
/// cell there holds a primary base.
pub open spec fn can_land(pairs: Seq<BasePair>, i: int) -> bool {
    0 <= i < pairs.len() && pairs[i].bind is Some
}

/// Fills the complement of the cell at `i` when copy mode is on.
pub open spec fn copy_at(pairs: Seq<BasePair>, i: int, copy_mode: bool) -> Seq<BasePair> {
    if copy_mode {
        pairs.update(i, pairs[i].filled())
    } else {
        pairs
    }
}

/// A search from `unit` one step at a time in the given direction: the
/// workspace, the cursor, and whether the enzyme halted on the way.
pub open spec fn search_spec(
    pairs: Seq<BasePair>,
    unit: int,
    right: bool,
    target: BaseType,
    copy_mode: bool,
) -> (Seq<BasePair>, int, bool)
    decreases (if right {
        pairs.len() - unit
    } else {
        unit
    }),
{
    let next = if right {
        unit + 1
    } else {
        unit - 1
    };
    if !can_land(pairs, next) {
        (pairs, unit, true)
    } else {
        let pairs1 = copy_at(pairs, next, copy_mode);
        if pairs[next].bind.unwrap().base_type() == target {
            (pairs1, next, false)
        } else {
            search_spec(pairs1, next, right, target, copy_mode)
        }
    }
}

/// The workspace turned over: every cell swapped, and the order reversed.
pub open spec fn turned_over(pairs: Seq<BasePair>) -> Seq<BasePair> {
    Seq::new(pairs.len(), |i: int| pairs[pairs.len() - 1 - i].swapped())
}

pub open spec fn halt(st: RewriteState) -> RewriteState {
    RewriteState { halted: true, ..st }
}

/// The effect of one instruction.
pub open spec fn step(st: RewriteState, a: AminoAcid, advance: bool) -> RewriteState {
    let pairs = st.pairs;
    let u = st.unit;
    match a {
        AminoAcid::Cut => RewriteState {
            pairs: pairs.take(u + 1),
            emitted: st.emitted + linearize(pairs.skip(u + 1)),
            ..st
        },
        AminoAcid::Del => {
            let pairs1 = pairs.update(u, BasePair { bind: None, comp: pairs[u].comp });
            if u == 0 || pairs1[u - 1].bind is None {
                halt(RewriteState { pairs: pairs1, ..st })
            } else {
                RewriteState { pairs: pairs1, unit: u - 1, ..st }
            }
        },
        AminoAcid::Swi => if pairs[u].comp is None {
            halt(st)
        } else {
            RewriteState { pairs: turned_over(pairs), unit: pairs.len() - 1 - u, ..st }
        },
        AminoAcid::Mvr | AminoAcid::Mvl => {
            let next = u + direction(a);
            if !can_land(pairs, next) {
                halt(st)
            } else {
                RewriteState { pairs: copy_at(pairs, next, st.copy_mode), unit: next, ..st }
            }
        },
        AminoAcid::Cop => RewriteState {
            pairs: pairs.update(u, pairs[u].filled()),
            copy_mode: true,
            ..st
        },
        AminoAcid::Off => RewriteState { copy_mode: false, ..st },
        AminoAcid::Ina | AminoAcid::Inc | AminoAcid::Ing | AminoAcid::Int => {
            let b = inserted_base(a).unwrap();
            let cell = BasePair {
                bind: Some(b),
                comp: if st.copy_mode {
                    Some(b.complement())
                } else {
                    None
                },
            };
            RewriteState {
                pairs: pairs.insert(u + 1, cell),
                unit: if advance {
                    u + 1
                } else {
                    u
                },
                ..st
            }
        },
        _ => {
            let (pairs1, u1, halted) = search_spec(
                pairs,
                u,
                direction(a) > 0,
                searched_type(a),
                st.copy_mode,
            );
            RewriteState { pairs: pairs1, unit: u1, halted, ..st }
        },
    }
}

/// Runs the instructions in order, until they are exhausted or one halts.
pub open spec fn run(aas: Seq<AminoAcid>, st: RewriteState, advance: bool) -> RewriteState
    decreases aas.len(),
{
    if aas.len() == 0 || st.halted {
        st
    } else {
        run(aas.drop_first(), step(st, aas[0], advance), advance)
    }
}

pub open spec fn initial_state(bs: Seq<Base>, site: int) -> RewriteState {
    RewriteState {
        pairs: initial_pairs(bs),
        unit: site,
        copy_mode: false,
        emitted: Seq::empty(),
        halted: false,
    }
}

/// What rewriting a strand with an enzyme under a policy yields: the strand itself where the
/// enzyme does not bind; else the strands cut off on the way, then the
/// strands of the final workspace.
pub open spec fn rewrite_spec_with(
    aas: Seq<AminoAcid>,
    bs: Seq<Base>,
    policy: RewritePolicy,
) -> Seq<Seq<Base>> {
    match binding_site_spec_with(aas, bs, policy.interior_only) {
        None => seq![bs],
        Some(site) => {
            let last = run(aas, initial_state(bs, site), policy.advance_after_insert);
            last.emitted + linearize(last.pairs)
        },
    }
}

/// What rewriting yields under the standard policy.
pub open spec fn rewrite_spec(aas: Seq<AminoAcid>, bs: Seq<Base>) -> Seq<Seq<Base>> {
    rewrite_spec_with(aas, bs, RewritePolicy::standard_spec())
}

/// Applies enzymes to strands.
pub struct Rewriter;

impl Rewriter {
    /// Rewrites the strand with the enzyme: the strands that come out.
    pub fn rewrite(enzyme: &Enzyme, strand: &Strand) -> (r: Vec<Strand>)
        ensures
            strands_view(r@) == rewrite_spec(enzyme@, strand@),
    {
        Self::rewrite_with(enzyme, strand, RewritePolicy::standard())
    }

    /// Rewrites the strand with the enzyme under the given policy.
    pub fn rewrite_with(enzyme: &Enzyme, strand: &Strand, policy: RewritePolicy) -> (r: Vec<
        Strand,
    >)
        ensures
            strands_view(r@) == rewrite_spec_with(enzyme@, strand@, policy),
    {
        let site = Folder::get_binding_site_with(enzyme, strand, policy.interior_only);
        let mut unit: usize = match site {
            None => {
                let r = vec![strand.clone()];
                assert(strands_view(r@) =~= seq![strand@]);
                return r;
            },
            Some(u) => u,
        };
        proof {
            crate::folder::lemma_first_index_of(
                strand@,
                crate::folder::affinity(crate::folder::fold_spec_with(enzyme@, policy.interior_only)),
            );
        }
        let bases = strand.iter_bases();
        let mut pairs: Vec<BasePair> = Vec::new();
        for k in 0..bases.len()
            invariant
                pairs@ == initial_pairs(bases@.take(k as int)),
        {
            pairs.push(BasePair { bind: Some(bases[k]), comp: None });
            assert(pairs@ =~= initial_pairs(bases@.take(k + 1)));
        }
        assert(bases@.take(bases@.len() as int) =~= bases@);
        let mut copy_mode = false;
        let mut strands: Vec<Strand> = Vec::new();
        let mut halted = false;
        let aas = enzyme.iter_amino_acids();
        let n = aas.len();
        let ghost first = initial_state(strand@, unit as int);
        assert(aas@.skip(0) =~= aas@);
        assert(strands_view(strands@) =~= Seq::empty());
        assert(pairs@ == initial_pairs(strand@));
        let mut i: usize = 0;
        while i < n && !halted
            invariant
                aas@ == enzyme@,
                n == aas@.len(),
                i <= n,
                !halted ==> unit < pairs@.len(),
                run(aas@, first, policy.advance_after_insert) == run(
                    aas@.skip(i as int),
                    RewriteState {
                        pairs: pairs@,
                        unit: unit as int,
                        copy_mode,
                        emitted: strands_view(strands@),
                        halted,
                    },
                    policy.advance_after_insert,
                ),
            decreases n - i,
        {
            let ghost before = RewriteState {
                pairs: pairs@,
                unit: unit as int,
                copy_mode,
                emitted: strands_view(strands@),
                halted,
            };
            let a = aas[i];
            match a {
                AminoAcid::Cut => {
                    let _ = pairs.len();
                    let tail = pairs.split_off(unit + 1);
                    let mut pieces = Self::strands_from_pairs(tail.as_slice());
                    let ghost old_strands = strands@;
                    strands.append(&mut pieces);
                    assert(strands_view(strands@) =~= strands_view(old_strands) + linearize(
                        before.pairs.skip(unit + 1),
                    )) by {
                        assert(tail@ =~= before.pairs.skip(unit + 1));
                    }
                    assert(pairs@ =~= before.pairs.take(unit + 1));
                },
                AminoAcid::Del => {
                    let c = pairs[unit].comp;
                    pairs.set(unit, BasePair { bind: None, comp: c });
                    if unit == 0 || pairs[unit - 1].bind.is_none() {
                        halted = true;
                    } else {
                        unit = unit - 1;
                    }
                },
                AminoAcid::Swi => {
                    if pairs[unit].comp.is_none() {
                        halted = true;
                    } else {
                        pairs = Self::turn_over(&pairs);
                        unit = pairs.len() - 1 - unit;
                    }
                },
                AminoAcid::Mvr | AminoAcid::Mvl => {
                    let dir = Self::amino_acid_to_direction(a).unwrap();
                    let len = pairs.len();
                    let stepped = Self::usize_add(unit, dir);
                    if stepped.is_none() {
                        halted = true;
                    } else {
                        let next = stepped.unwrap();
                        if next >= len || pairs[next].bind.is_none() {
                            halted = true;
                        } else {
                            if copy_mode {
                                let mut p = pairs[next];
                                p.add_comp();
                                pairs.set(next, p);
                            }
                            unit = next;
                        }
                    }
                },
                AminoAcid::Cop => {
                    copy_mode = true;
                    let mut p = pairs[unit];
                    p.add_comp();
                    pairs.set(unit, p);
                },
                AminoAcid::Off => {
                    copy_mode = false;
                },
                AminoAcid::Ina | AminoAcid::Inc | AminoAcid::Ing | AminoAcid::Int => {
                    if let Some(b) = Self::amino_acid_to_base(a) {
                        let cell = BasePair {
                            bind: Some(b),
                            comp: if copy_mode {
                                Some(b.get_complement())
                            } else {
                                None
                            },
                        };
                        let _ = pairs.len();
                        pairs.insert(unit + 1, cell);
                        if policy.advance_after_insert {
                            unit = unit + 1;
                        }
                    }
                },
                AminoAcid::Rpy | AminoAcid::Rpu | AminoAcid::Lpy | AminoAcid::Lpu => {
                    let right = Self::amino_acid_to_direction(a).unwrap() > 0;
                    let target = Self::amino_acid_to_base_type(a);
                    let (u1, h) = Self::search(&mut pairs, unit, right, target, copy_mode);
                    unit = u1;
                    halted = h;
                },
            }
            assert(RewriteState {
                pairs: pairs@,
                unit: unit as int,
                copy_mode,
                emitted: strands_view(strands@),
                halted,
            } == step(before, a, policy.advance_after_insert));
            assert(aas@.skip(i as int).drop_first() =~= aas@.skip(i + 1));
            assert(aas@.skip(i as int)[0] == a);
            i = i + 1;
        }
        assert(aas@.skip(n as int) =~= Seq::<AminoAcid>::empty());
        let mut rest = Self::strands_from_pairs(pairs.as_slice());
        let ghost old_strands = strands@;
        strands.append(&mut rest);
        assert(strands_view(strands@) =~= strands_view(old_strands) + linearize(pairs@));
        strands
    }

    /// Searches from `unit` one step at a time for a base of the target kind.
    fn search(
        pairs: &mut Vec<BasePair>,
        unit: usize,
        right: bool,
        target: BaseType,
        copy_mode: bool,
    ) -> (r: (usize, bool))
        requires
            unit < old(pairs)@.len(),
        ensures
            (final(pairs)@, r.0 as int, r.1) == search_spec(
                old(pairs)@,
                unit as int,
                right,
                target,
                copy_mode,
            ),
            final(pairs)@.len() == old(pairs)@.len(),
            r.0 < final(pairs)@.len(),
    {
        let dir: i32 = if right { 1 } else { -1 };
        let mut cur = unit;
        let len = pairs.len();
        loop
            invariant
                cur < pairs@.len(),
                len == pairs@.len(),
                pairs@.len() == old(pairs)@.len(),
                dir == (if right { 1i32 } else { -1i32 }),
                search_spec(old(pairs)@, unit as int, right, target, copy_mode) == search_spec(
                    pairs@,
                    cur as int,
                    right,
                    target,
                    copy_mode,
                ),
            decreases (if right {
                pairs@.len() - cur
            } else {
                cur as int
            }),
        {
            let stepped = Self::usize_add(cur, dir);
            if stepped.is_none() {
                return (cur, true);
            }
            let next = stepped.unwrap();
            assert(next as int == if right { cur + 1 } else { cur - 1 });
            if next >= pairs.len() || pairs[next].bind.is_none() {
                assert(!can_land(pairs@, next as int));
                return (cur, true);
            }
            let found = pairs[next].bind.unwrap();
            if copy_mode {
                let mut p = pairs[next];
                p.add_comp();
                pairs.set(next, p);
            }
            cur = next;
            if found.is_type(target) {
                return (cur, false);
            }
        }
    }

    fn turn_over(pairs: &Vec<BasePair>) -> (r: Vec<BasePair>)
        ensures
            r@ == turned_over(pairs@),
    {
        let mut r: Vec<BasePair> = Vec::new();
        let n = pairs.len();
        for i in 0..n
            invariant
                n == pairs@.len(),
                r@ == turned_over(pairs@).take(i as int),
        {
            let mut p = pairs[n - 1 - i];
            p.swap();
            r.push(p);
            assert(r@ =~= turned_over(pairs@).take(i + 1));
        }
        assert(r@ =~= turned_over(pairs@));
        r
    }

    /// `u + i`, where that lies in the range of `usize`.
    fn usize_add(u: usize, i: i32) -> (r: Option<usize>)
        ensures
            r == (if 0 <= u + i <= usize::MAX {
                Some((u + i) as usize)
            } else {
                None
            }),
    {
        if i < 0 {
            let d = (0 - (i as i64)) as usize;
            if d <= u {
                Some(u - d)
            } else {
                None
            }
        } else {
            let d = i as usize;
            if d <= usize::MAX - u {
                Some(u + d)
            } else {
                None
            }
        }
    }

    fn amino_acid_to_direction(amino_acid: AminoAcid) -> (r: Option<i32>)
        ensures
            r == (if is_search(amino_acid) || amino_acid == AminoAcid::Mvr || amino_acid
                == AminoAcid::Mvl {
                Some(direction(amino_acid) as i32)
            } else {
                None
            }),
    {
        match amino_acid {
            AminoAcid::Rpy | AminoAcid::Rpu | AminoAcid::Mvr => Some(1),
            AminoAcid::Lpy | AminoAcid::Lpu | AminoAcid::Mvl => Some(-1),
            _ => None,
        }
    }

    fn amino_acid_to_base(amino_acid: AminoAcid) -> (r: Option<Base>)
        ensures
            r == inserted_base(amino_acid),
    {
        match amino_acid {
            AminoAcid::Ina => Some(Base::A),
            AminoAcid::Inc => Some(Base::C),
            AminoAcid::Ing => Some(Base::G),
            AminoAcid::Int => Some(Base::T),
            _ => None,
        }
    }

    fn amino_acid_to_base_type(amino_acid: AminoAcid) -> (r: BaseType)
        requires
            is_search(amino_acid),
        ensures
            r == searched_type(amino_acid),
    {
        match amino_acid {
            AminoAcid::Rpy | AminoAcid::Lpy => BaseType::Pyrimidine,
            _ => BaseType::Purine,
        }
    }

    /// A two-line picture of a workspace, for diagnostics.
    pub fn pairs_to_string(pairs: &[BasePair]) -> (r: String)
        ensures
            r@ == pairs_text(pairs@),
    {
        let open = "[ ";
        let middle = "]\n[ ";
        let close = "]";
        let blank = "  ";
        let space = " ";
        proof {
            reveal_strlit("[ ");
            reveal_strlit("]\n[ ");
            reveal_strlit("]");
            reveal_strlit("  ");
            reveal_strlit(" ");
        }
        assert(open@ =~= seq!['[', ' ']);
        assert(middle@ =~= seq![']', '\n', '[', ' ']);
        assert(close@ =~= seq![']']);
        assert(blank@ =~= seq![' ', ' ']);
        assert(space@ =~= seq![' ']);
        let mut res = String::from_str(open);
        let ghost start = res@;
        for i in 0..pairs.len()
            invariant
                start == seq!['[', ' '],
                blank@ == seq![' ', ' '],
                space@ == seq![' '],
                res@ == start + row_text(pairs@.take(i as int), true),
        {
            assert(pairs@.take(i + 1).drop_last() =~= pairs@.take(i as int));
            assert(pairs@.take(i + 1).last() == pairs@[i as int]);
            let ghost before = res@;
            match pairs[i].comp {
                Some(c) => {
                    res.append(Self::comp_glyph_str(c));
                    res.append(space);
                },
                None => res.append(blank),
            }
            assert(res@ =~= before + cell_text(pairs@[i as int], true));
            assert(res@ =~= start + row_text(pairs@.take(i + 1), true));
        }
        assert(pairs@.take(pairs@.len() as int) =~= pairs@);
        res.append(middle);
        let ghost upper = res@;
        for i in 0..pairs.len()
            invariant
                blank@ == seq![' ', ' '],
                space@ == seq![' '],
                res@ == upper + row_text(pairs@.take(i as int), false),
        {
            assert(pairs@.take(i + 1).drop_last() =~= pairs@.take(i as int));
            assert(pairs@.take(i + 1).last() == pairs@[i as int]);
            let ghost before = res@;
            match pairs[i].bind {
                Some(b) => {
                    res.append(b.to_str());
                    res.append(space);
                },
                None => res.append(blank),
            }
            assert(res@ =~= before + cell_text(pairs@[i as int], false));
            assert(res@ =~= upper + row_text(pairs@.take(i + 1), false));
        }
        res.append(close);
        assert(res@ =~= pairs_text(pairs@));
        res
    }

    fn comp_glyph_str(b: Base) -> (r: &'static str)
        ensures
            r@ == seq![comp_glyph(b)],
    {
        match b {
            Base::A => {
                proof {
                    reveal_strlit("∀");
                }
                assert("∀"@ =~= seq!['∀']);
                "∀"
            },
            Base::C => {
                proof {
                    reveal_strlit("Ↄ");
                }
                assert("Ↄ"@ =~= seq!['Ↄ']);
                "Ↄ"
            },
            Base::G => {
                proof {
                    reveal_strlit("⅁");
                }
                assert("⅁"@ =~= seq!['⅁']);
                "⅁"
            },
            Base::T => {
                proof {
                    reveal_strlit("⊥");
                }
                assert("⊥"@ =~= seq!['⊥']);
                "⊥"
            },
        }
    }

    /// The strands that a workspace falls apart into.
    pub fn strands_from_pairs(pairs: &[BasePair]) -> (r: Vec<Strand>)
        ensures
            strands_view(r@) == linearize(pairs@),
    {
        let mut strands: Vec<Strand> = Vec::new();
        let mut bind_bases: Vec<Base> = Vec::new();
        let mut comp_bases: Vec<Base> = Vec::new();
        for i in 0..pairs.len()
            invariant
                linearize_scan(pairs@.take(i as int)) == (
                    strands_view(strands@),
                    bind_bases@,
                    comp_bases@,
                ),
        {
            assert(pairs@.take(i + 1).drop_last() =~= pairs@.take(i as int));
            let pair = pairs[i];
            match pair.bind {
                Some(b) => bind_bases.push(b),
                None => {
                    if bind_bases.len() > 0 {
                        strands.push(Strand::new(bind_bases));
                        bind_bases = Vec::new();
                    }
                },
            }
            match pair.comp {
                Some(c) => comp_bases.push(c),
                None => {
                    if comp_bases.len() > 0 {
                        strands.push(Strand::new(Self::reversed(&comp_bases)));
                        comp_bases = Vec::new();
                    }
                },
            }
            assert(strands_view(strands@) =~= linearize_scan(pairs@.take(i + 1)).0);
        }
        assert(pairs@.take(pairs@.len() as int) =~= pairs@);
        if bind_bases.len() > 0 {
            strands.push(Strand::new(bind_bases));
        }
        if comp_bases.len() > 0 {
            strands.push(Strand::new(Self::reversed(&comp_bases)));
        }
        assert(strands_view(strands@) =~= linearize(pairs@));
        strands
    }

    fn reversed(bases: &Vec<Base>) -> (r: Vec<Base>)
        ensures
            r@ == bases@.reverse(),
    {
        let mut r: Vec<Base> = Vec::new();
        let n = bases.len();
        for i in 0..n
            invariant
                n == bases@.len(),
                r@ == bases@.reverse().take(i as int),
        {
            r.push(bases[n - 1 - i]);
            assert(r@ =~= bases@.reverse().take(i + 1));
        }
        assert(r@ =~= bases@.reverse());
        r
    }
}

/// Whether every strand in the list has at least one base.
pub open spec fn all_nonempty(ss: Seq<Seq<Base>>) -> bool {
    forall|j: int| 0 <= j < ss.len() ==> (#[trigger] ss[j]).len() > 0
}

proof fn lemma_all_nonempty_push(ss: Seq<Seq<Base>>, s: Seq<Base>)
    requires
        all_nonempty(ss),
        s.len() > 0,
    ensures
        all_nonempty(ss.push(s)),
{
    assert forall|j: int| 0 <= j < ss.push(s).len() implies (#[trigger] ss.push(s)[j]).len() > 0 by {
        if j < ss.len() {
            assert(ss.push(s)[j] == ss[j]);
        }
    }
}

proof fn lemma_all_nonempty_concat(a: Seq<Seq<Base>>, b: Seq<Seq<Base>>)
    requires
        all_nonempty(a),
        all_nonempty(b),
    ensures
        all_nonempty(a + b),
{
    assert forall|j: int| 0 <= j < (a + b).len() implies (#[trigger] (a + b)[j]).len() > 0 by {
        if j < a.len() {
            assert((a + b)[j] == a[j]);
        } else {
            assert((a + b)[j] == b[j - a.len()]);
        }
    }
}

proof fn lemma_linearize_scan_nonempty(pairs: Seq<BasePair>)
    ensures
        all_nonempty(linearize_scan(pairs).0),
    decreases pairs.len(),
{
    if pairs.len() > 0 {
        lemma_linearize_scan_nonempty(pairs.drop_last());
        let (out, binds, comps) = linearize_scan(pairs.drop_last());
        let p = pairs.last();
        let out1 = if p.bind is None && binds.len() > 0 {
            lemma_all_nonempty_push(out, binds);
            out.push(binds)
        } else {
            out
        };
        if p.comp is None && comps.len() > 0 {
            lemma_all_nonempty_push(out1, comps.reverse());
        }
    }
}

/// Every strand a workspace falls apart into has at least one base.
proof fn lemma_linearize_nonempty(pairs: Seq<BasePair>)
    ensures
        all_nonempty(linearize(pairs)),
{
    lemma_linearize_scan_nonempty(pairs);
    let (out, binds, comps) = linearize_scan(pairs);
    let out1 = if binds.len() > 0 {
        lemma_all_nonempty_push(out, binds);
        out.push(binds)
    } else {
        out
    };
    if comps.len() > 0 {
        lemma_all_nonempty_push(out1, comps.reverse());
    }
}

proof fn lemma_search_keeps_length(
    pairs: Seq<BasePair>,
    unit: int,
    right: bool,
    target: BaseType,
    copy_mode: bool,
)
    ensures
        search_spec(pairs, unit, right, target, copy_mode).0.len() == pairs.len(),
        !copy_mode ==> search_spec(pairs, unit, right, target, copy_mode).0 == pairs,
    decreases (if right {
        pairs.len() - unit
    } else {
        unit
    }),
{
    let next = if right {
        unit + 1
    } else {
        unit - 1
    };
    if can_land(pairs, next) {
        let pairs1 = copy_at(pairs, next, copy_mode);
        if pairs[next].bind.unwrap().base_type() != target {
            lemma_search_keeps_length(pairs1, next, right, target, copy_mode);
        }
    }
}

proof fn lemma_run_emits_nonempty(aas: Seq<AminoAcid>, st: RewriteState, advance: bool)
    requires
        all_nonempty(st.emitted),
    ensures
        all_nonempty(run(aas, st, advance).emitted),
    decreases aas.len(),
{
    if aas.len() > 0 && !st.halted {
        let next = step(st, aas[0], advance);
        if aas[0] == AminoAcid::Cut {
            lemma_linearize_nonempty(st.pairs.skip(st.unit + 1));
            lemma_all_nonempty_concat(st.emitted, linearize(st.pairs.skip(st.unit + 1)));
        }
        lemma_run_emits_nonempty(aas.drop_first(), next, advance);
    }
}

/// No rewrite of a strand with at least one base yields an empty strand.
pub proof fn lemma_rewrite_nonempty(aas: Seq<AminoAcid>, bs: Seq<Base>)
    requires
        bs.len() > 0,
    ensures
        forall|j: int|
            0 <= j < rewrite_spec(aas, bs).len() ==> (#[trigger] rewrite_spec(aas, bs)[j]).len()
                > 0,
{
    match binding_site_spec(aas, bs) {
        None => {
            assert(all_nonempty(seq![bs]));
        },
        Some(site) => {
            let first = initial_state(bs, site);
            assert(all_nonempty(first.emitted));
            lemma_run_emits_nonempty(aas, first, true);
            let last = run(aas, first, true);
            lemma_linearize_nonempty(last.pairs);
            lemma_all_nonempty_concat(last.emitted, linearize(last.pairs));
        },
    }
    assert(all_nonempty(rewrite_spec(aas, bs)));
}

/// An enzyme that does not bind leaves the strand as it is.
pub proof fn lemma_rewrite_unbound(aas: Seq<AminoAcid>, bs: Seq<Base>)
    requires
        binding_site_spec(aas, bs) is None,
    ensures
        rewrite_spec(aas, bs) == seq![bs],
{
}

/// Rewriting is a function of the enzyme and the strand alone.
pub proof fn lemma_rewrite_deterministic(
    aas1: Seq<AminoAcid>,
    bs1: Seq<Base>,
    aas2: Seq<AminoAcid>,
    bs2: Seq<Base>,
)
    requires
        aas1 == aas2,
        bs1 == bs2,
    ensures
        rewrite_spec(aas1, bs1) == rewrite_spec(aas2, bs2),
{
}

/// An instruction that only moves the cursor, searches, or turns copy mode off.
pub open spec fn is_pure_motion(a: AminoAcid) -> bool {
    match a {
        AminoAcid::Mvr | AminoAcid::Mvl | AminoAcid::Off | AminoAcid::Rpy | AminoAcid::Rpu
        | AminoAcid::Lpy | AminoAcid::Lpu => true,
        _ => false,
    }
}

proof fn lemma_run_pure_motion(aas: Seq<AminoAcid>, st: RewriteState, advance: bool)
    requires
        forall|k: int| 0 <= k < aas.len() ==> is_pure_motion(#[trigger] aas[k]),
        !st.copy_mode,
    ensures
        run(aas, st, advance).pairs == st.pairs,
        run(aas, st, advance).emitted == st.emitted,
    decreases aas.len(),
{
    if aas.len() > 0 && !st.halted {
        let a = aas[0];
        assert(is_pure_motion(a));
        if a == AminoAcid::Rpy || a == AminoAcid::Rpu || a == AminoAcid::Lpy || a
            == AminoAcid::Lpu {
            lemma_search_keeps_length(
                st.pairs,
                st.unit,
                direction(a) > 0,
                searched_type(a),
                st.copy_mode,
            );
        }
        let next = step(st, a, advance);
        assert(next.pairs == st.pairs);
        assert forall|k: int| 0 <= k < aas.drop_first().len() implies is_pure_motion(
            #[trigger] aas.drop_first()[k],
        ) by {
            assert(aas.drop_first()[k] == aas[k + 1]);
        }
        lemma_run_pure_motion(aas.drop_first(), next, advance);
    }
}

proof fn lemma_linearize_scan_plain(bs: Seq<Base>)
    ensures
        linearize_scan(initial_pairs(bs)) == (Seq::<Seq<Base>>::empty(), bs, Seq::<Base>::empty()),
    decreases bs.len(),
{
    if bs.len() > 0 {
        lemma_linearize_scan_plain(bs.drop_last());
        assert(initial_pairs(bs).drop_last() =~= initial_pairs(bs.drop_last()));
        assert(bs.drop_last().push(bs.last()) =~= bs);
    } else {
        assert(initial_pairs(bs) =~= Seq::empty());
    }
}

/// An enzyme made only of motions, searches and `off` gives back the strand
/// unchanged, as the one strand of the output.
pub proof fn lemma_pure_motion_is_identity(aas: Seq<AminoAcid>, bs: Seq<Base>)
    requires
        forall|k: int| 0 <= k < aas.len() ==> is_pure_motion(#[trigger] aas[k]),
    ensures
        rewrite_spec(aas, bs) == seq![bs],
{
    if let Some(site) = binding_site_spec(aas, bs) {
        crate::folder::lemma_first_index_of(bs, crate::folder::affinity(crate::folder::fold_spec(aas)));
        let first = initial_state(bs, site);
        lemma_run_pure_motion(aas, first, true);
        lemma_linearize_scan_plain(bs);
        assert(Seq::<Seq<Base>>::empty().push(bs) =~= seq![bs]);
        assert(Seq::<Seq<Base>>::empty() + seq![bs] =~= seq![bs]);
    }
}

} // verus!
