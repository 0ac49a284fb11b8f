use typogenetics::{
    AminoAcid, Base, BasePair, BaseType, EditType, Editor, Enzyme, Folder, Rewriter, SearchAlgos,
    Strand, Translator, Turn,
};

const ALL_BASES: [Base; 4] = [Base::A, Base::C, Base::G, Base::T];

fn strand(text: &str) -> Strand {
    Strand::from_string(text)
}

fn enzyme(text: &str) -> Enzyme {
    Enzyme::from_string(text)
}

#[test]
fn translate_counts_coding_duplets() {
    let s = strand("CAAAGAGAATCCTCTTTGATA");
    let total: usize = Translator::translate(&s).iter().map(|e| e.len()).sum();
    let coding = s
        .iter_duplets()
        .into_iter()
        .filter(|d| Translator::translate_duplet(*d).is_some())
        .count();
    assert_eq!(total, 9);
    assert_eq!(total, coding);
}

#[test]
fn rewrite_never_yields_empty_strands() {
    let strands = ["A", "ACA", "TAGATCCAGTCCACATCGA", "GGGTTTAAACCC", "TACG"];
    let enzymes = ["cut", "del-del-del", "cop-cut-swi", "mvl-del-mvr", "ina-cut-swi-cop", "cop-lpu-del"];
    for s in strands.iter() {
        for e in enzymes.iter() {
            for out in Rewriter::rewrite(&enzyme(e), &strand(s)) {
                assert!(out.len() >= 1, "{} on {}", e, s);
            }
        }
    }
}

#[test]
fn complement_twice_is_identity() {
    for b in ALL_BASES.iter() {
        assert_eq!(b.get_complement().get_complement(), *b);
        assert_ne!(b.get_complement(), *b);
    }
    assert_eq!(Base::A.get_complement(), Base::T);
    assert_eq!(Base::C.get_complement(), Base::G);
}

#[test]
fn rewrite_is_deterministic() {
    let e = enzyme("rpy-ina-rpu-mvr-int-mvl-cut-swi-cop");
    let s = strand("TAGATCCAGTCCACATCGA");
    assert!(Rewriter::rewrite(&e, &s) == Rewriter::rewrite(&e, &s));
}

#[test]
fn unbound_enzyme_returns_strand() {
    let s = strand("CCCC");
    let e = enzyme("cut-del");
    assert_eq!(Folder::get_binding_site(&e, &s), None);
    let out = Rewriter::rewrite(&e, &s);
    assert_eq!(out.len(), 1);
    assert!(out[0] == s);
}

#[test]
fn pure_motion_enzyme_is_identity() {
    let s = strand("GATTACA");
    for e in ["mvr-mvl-rpy", "rpy-rpu-off-lpy-lpu", "mvr", "off"].iter() {
        let out = Rewriter::rewrite(&enzyme(e), &s);
        assert_eq!(out.len(), 1);
        assert!(out[0] == s);
    }
}

#[test]
fn strand_round_trip() {
    for text in ["", "A", "CATAAGTACCAG", "TTTT"].iter() {
        let s = strand(text);
        assert_eq!(s.format(), *text);
        assert!(Strand::parse(&s.format()).unwrap() == s && Strand::from_string(&s.format()) == s);
    }
}

#[test]
fn strand_parse_skips_spaces_and_refuses_others() {
    assert_eq!(strand(" A C  G ").format(), "ACG");
    assert!(Strand::parse("ACX").is_none());
    assert!(Strand::parse("acg").is_none());
    assert_eq!(Base::parse("G"), Some(Base::G));
    assert_eq!(Base::from_string("T"), Base::T);
    assert_eq!(Base::parse("GG"), None);
    assert_eq!(Base::parse("U"), None);
}

#[test]
fn enzyme_round_trip() {
    for text in ["cut", "cop-ina-rpy", "rpy-ina-rpu-mvr-int-mvl-cut-swi-cop"].iter() {
        let e = enzyme(text);
        assert_eq!(e.format(), *text);
        assert!(Enzyme::parse(&e.format()).unwrap() == e && Enzyme::from_string(&e.format()) == e);
    }
    let built = Enzyme::new(vec![AminoAcid::Lpu, AminoAcid::Off]);
    assert_eq!(built.format(), "lpu-off");
    assert!(Enzyme::from_string("lpu-off") == built);
}

#[test]
fn enzyme_parse_refuses_unknown_tokens() {
    assert!(Enzyme::parse("").is_none());
    assert!(Enzyme::parse("cut-xyz").is_none());
    assert!(Enzyme::parse("cut--del").is_none());
    assert!(Enzyme::parse("cut-").is_none());
    assert!(Enzyme::parse("CUT").is_none());
    assert_eq!(AminoAcid::parse("lpy"), Some(AminoAcid::Lpy));
    assert_eq!(AminoAcid::from_string("rpu"), AminoAcid::Rpu);
    assert_eq!(AminoAcid::parse("lp"), None);
    assert_eq!(AminoAcid::Ing.to_str(), "ing");
}

#[test]
fn base_classes() {
    assert!(Base::A.is_purine() && Base::G.is_purine());
    assert!(Base::C.is_pyrimidine() && Base::T.is_pyrimidine());
    assert!(!Base::A.is_pyrimidine() && !Base::T.is_purine());
    assert!(Base::G.is_type(BaseType::Purine));
    assert!(!Base::G.is_type(BaseType::Pyrimidine));
}

#[test]
fn turns_and_table() {
    assert_eq!(Turn::L.to_int(), -1);
    assert_eq!(Turn::S.to_int(), 0);
    assert_eq!(Turn::R.to_int(), 1);
    assert_eq!(Folder::get_turn(&AminoAcid::Off), Turn::L);
    assert_eq!(Folder::get_turn(&AminoAcid::Swi), Turn::R);
    assert_eq!(Folder::get_turn(&AminoAcid::Cut), Turn::S);
}

#[test]
fn base_pair_operations() {
    let mut p = BasePair { bind: Some(Base::C), comp: None };
    p.add_comp();
    assert_eq!(p, BasePair { bind: Some(Base::C), comp: Some(Base::G) });
    p.swap();
    assert_eq!(p, BasePair { bind: Some(Base::G), comp: Some(Base::C) });
    let mut hole = BasePair { bind: None, comp: Some(Base::A) };
    hole.add_comp();
    assert_eq!(hole, BasePair { bind: None, comp: Some(Base::A) });
}

#[test]
fn workspace_picture() {
    let pairs = [
        BasePair { bind: Some(Base::A), comp: Some(Base::T) },
        BasePair { bind: None, comp: None },
        BasePair { bind: Some(Base::G), comp: None },
    ];
    assert_eq!(Rewriter::pairs_to_string(&pairs), "[ ⊥     ]\n[ A   G ]");
    let strands = Rewriter::strands_from_pairs(&pairs);
    let texts: Vec<String> = strands.iter().map(|s| s.format()).collect();
    assert_eq!(texts, vec!["A", "T", "G"]);
}

#[test]
fn duplets_drop_trailing_base() {
    let d = strand("ACGTA").iter_duplets();
    assert_eq!(d, vec![(Base::A, Base::C), (Base::G, Base::T)]);
    assert_eq!(strand("ACG").iter_bases(), &[Base::A, Base::C, Base::G][..]);
}

#[test]
fn point_edits() {
    let s = strand("ACGT");
    assert_eq!(Editor::mutate_at(&s, 1, Base::T).format(), "ATGT");
    assert_eq!(Editor::insert_at(&s, 4, Base::A).format(), "ACGTA");
    assert_eq!(Editor::insert_at(&s, 0, Base::C).format(), "CACGT");
    assert_eq!(Editor::delete_at(&s, 2).format(), "ACT");
    assert_eq!(Editor::other_base(Base::A, 0), Base::C);
    assert_eq!(Editor::other_base(Base::G, 2), Base::T);
    assert_eq!(EditType::of_draw(0), EditType::Mutate);
    assert_eq!(EditType::of_draw(79), EditType::Mutate);
    assert_eq!(EditType::of_draw(80), EditType::Insert);
    assert_eq!(EditType::of_draw(90), EditType::Delete);
}

#[test]
fn random_edits_change_one_base() {
    let mut rng = rand::thread_rng();
    let s = strand("ACGTACGT");
    for _ in 0..50 {
        let m = Editor::mutate(&s, &mut rng);
        assert_eq!(m.len(), s.len());
        let diff = m.iter_bases().iter().zip(s.iter_bases()).filter(|(a, b)| a != b).count();
        assert_eq!(diff, 1);
        assert_eq!(Editor::insert(&s, &mut rng).len(), 9);
        assert_eq!(Editor::delete(&s, &mut rng).len(), 7);
        let e = Editor::edit(&s, &mut rng).len();
        assert!(e == 7 || e == 8 || e == 9);
    }
}

#[test]
fn random_walk_discovers_distinct_strands() {
    let mut rng = rand::thread_rng();
    let init = strand("TAGATCCAGTCCACATCGA");
    let found = SearchAlgos::random(&init, 200, &mut rng);
    assert!(found[0] == init);
    let texts: Vec<String> = found.iter().map(|s| s.format()).collect();
    let mut sorted = texts.clone();
    sorted.sort();
    sorted.dedup();
    assert_eq!(sorted.len(), texts.len());
    assert!(found.len() >= 2);
    assert!(SearchAlgos::contains(&found, &init));
    assert_eq!(SearchAlgos::random(&init, 0, &mut rng).len(), 1);
}

#[test]
fn walk_step_adds_only_new_strands() {
    let mut known = vec![strand("TAGATCCAGTCCACATCGA")];
    SearchAlgos::step(&mut known, 0, 0, 0);
    let texts: Vec<String> = known.iter().map(|s| s.format()).collect();
    assert_eq!(texts, vec!["TAGATCCAGTCCACATCGA", "TTCCACATCGA", "TAGATCCAAG"]);
    SearchAlgos::step(&mut known, 0, 0, 0);
    assert_eq!(known.len(), 3);
    SearchAlgos::step(&mut known, 0, 5, 1);
    assert_eq!(known.len(), 3);
    let mut plain = vec![strand("GATTACA"), strand("CA")];
    SearchAlgos::step(&mut plain, 1, 0, 0);
    assert_eq!(plain.len(), 2);
}

#[test]
fn random_walk_without_enzymes_stays_put() {
    let mut rng = rand::thread_rng();
    let found = SearchAlgos::random(&strand("AAAA"), 100, &mut rng);
    assert_eq!(found.len(), 1);
    assert_eq!(SearchAlgos::random(&strand("TAGATCCAGTCCACATCGA"), -3, &mut rng).len(), 1);
}

#[test]
fn other_bases_in_order() {
    assert_eq!(Editor::other_base(Base::C, 0), Base::A);
    assert_eq!(Editor::other_base(Base::C, 1), Base::G);
    assert_eq!(Editor::other_base(Base::T, 2), Base::G);
}
