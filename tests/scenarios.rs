use typogenetics::rewriter::RewritePolicy;
use typogenetics::{AminoAcid, Base, Enzyme, Folder, Orientation, Rewriter, Strand, Translator};

fn strand(text: &str) -> Strand {
    Strand::from_string(text)
}

fn enzyme(text: &str) -> Enzyme {
    Enzyme::from_string(text)
}

fn texts(strands: &[Strand]) -> Vec<String> {
    strands.iter().map(|s| s.format()).collect()
}

fn enzyme_texts(enzymes: &[Enzyme]) -> Vec<String> {
    enzymes.iter().map(|e| e.format()).collect()
}

#[test]
fn single_cut_on_aca() {
    let s = strand("ACA");
    assert_eq!(enzyme_texts(&Translator::translate(&s)), vec!["cut"]);
    assert_eq!(Folder::get_binding_site(&enzyme("cut"), &s), Some(0));
    let out = texts(&Rewriter::rewrite(&enzyme("cut"), &s));
    // the piece cut off comes first, then what is left of the workspace
    assert_eq!(out, vec!["CA", "A"]);
}

#[test]
fn cop_without_binding_site() {
    let s = strand("CG");
    assert_eq!(enzyme_texts(&Translator::translate(&s)), vec!["cop"]);
    assert_eq!(Folder::get_binding_site(&enzyme("cop"), &s), None);
    assert_eq!(texts(&Rewriter::rewrite(&enzyme("cop"), &s)), vec!["CG"]);
}

#[test]
fn hofstadter_running_example() {
    let s = strand("TAGATCCAGTCCACATCGA");
    let enzymes = Translator::translate(&s);
    assert_eq!(enzyme_texts(&enzymes), vec!["rpy-ina-rpu-mvr-int-mvl-cut-swi-cop"]);
    assert_eq!(Folder::fold(&enzymes[0]), Orientation::U);
    let out = texts(&Rewriter::rewrite(&enzymes[0], &s));
    assert_eq!(out, vec!["TTCCACATCGA", "TAGATCCAAG"]);
}

#[test]
fn translate_two_enzymes() {
    let s = strand("CAAAGAGAATCCTCTTTGAT");
    let enzymes = Translator::translate(&s);
    assert_eq!(enzyme_texts(&enzymes), vec!["mvr", "ina-ina-swi-mvl-rpu-lpu-lpy-swi"]);
}

#[test]
fn single_base_strand() {
    let s = strand("A");
    assert!(Translator::translate(&s).is_empty());
    assert_eq!(texts(&Rewriter::rewrite(&enzyme("cop"), &s)), vec!["A", "T"]);
}

#[test]
fn cut_on_poly_a() {
    let s = strand("AAAAAA");
    assert!(Translator::translate(&s).is_empty());
    assert_eq!(texts(&Rewriter::rewrite(&enzyme("cut"), &s)), vec!["AAAAA", "A"]);
}

#[test]
fn delete_twice_then_move() {
    assert_eq!(texts(&Rewriter::rewrite(&enzyme("del-del-mvr"), &strand("TACG"))), vec!["CG"]);
}

#[test]
fn copy_then_switch_and_insert() {
    let out = texts(&Rewriter::rewrite(&enzyme("cop-mvr-mvr-swi-ina"), &strand("ACGT")));
    assert_eq!(out, vec!["ACGT", "AC"]);
}

#[test]
fn search_then_insert() {
    let s = strand("CAAAGAGAATCCTCTTTGAT");
    assert_eq!(
        texts(&Rewriter::rewrite(&enzyme("rpy-off-rpy-ina"), &s)),
        vec!["CAAAGAGAATCACTCTTTGAT"]
    );
    assert_eq!(
        texts(&Rewriter::rewrite(&enzyme("mvr-ina-rpu-lpu"), &s)),
        vec!["CAAAAGAGAATCCTCTTTGAT"]
    );
}

#[test]
fn insertions_in_copy_mode_then_switch() {
    let out = texts(&Rewriter::rewrite(&enzyme("cop-int-ina-swi-mvr"), &strand("TTAGC")));
    assert_eq!(out, vec!["TAT", "TTATAGC"]);
}

#[test]
fn translate_edge_cases() {
    assert!(Translator::translate(&strand("")).is_empty());
    assert!(Translator::translate(&strand("AAAAAAAA")).is_empty());
    assert_eq!(enzyme_texts(&Translator::translate(&strand("ACAAAAAG"))), vec!["cut", "del"]);
    assert_eq!(enzyme_texts(&Translator::translate(&strand("ACAGC"))), vec!["cut-del"]);
}

#[test]
fn translate_duplet_table() {
    assert_eq!(Translator::translate_duplet((Base::A, Base::A)), None);
    assert_eq!(Translator::translate_duplet((Base::A, Base::T)), Some(AminoAcid::Swi));
    assert_eq!(Translator::translate_duplet((Base::C, Base::G)), Some(AminoAcid::Cop));
    assert_eq!(Translator::translate_duplet((Base::G, Base::T)), Some(AminoAcid::Int));
    assert_eq!(Translator::translate_duplet((Base::T, Base::C)), Some(AminoAcid::Rpu));
}

#[test]
fn fold_orientations() {
    assert_eq!(Folder::fold(&enzyme("cop")), Orientation::R);
    assert_eq!(Folder::fold(&enzyme("cop-swi")), Orientation::R);
    assert_eq!(Folder::fold(&enzyme("cut-cop-cut")), Orientation::D);
    assert_eq!(Folder::fold(&enzyme("cut-swi-swi-cut")), Orientation::L);
    assert_eq!(Folder::fold(&enzyme("cut-off-cut")), Orientation::U);
    assert_eq!(Folder::fold(&enzyme("cut-off-off-off-off-off-cut")), Orientation::U);
}

#[test]
fn binding_sites() {
    assert_eq!(Folder::get_binding_affinity(Orientation::R), Base::A);
    assert_eq!(Folder::get_binding_affinity(Orientation::U), Base::C);
    assert_eq!(Folder::get_binding_affinity(Orientation::D), Base::G);
    assert_eq!(Folder::get_binding_affinity(Orientation::L), Base::T);
    assert_eq!(Folder::get_binding_site(&enzyme("cut-cop-cut"), &strand("TTAGGG")), Some(3));
    assert_eq!(Folder::get_binding_site(&enzyme("cut-cop-cut"), &strand("TTAA")), None);
}

#[test]
fn orientation_from_turning_number() {
    assert_eq!(Orientation::from_turning_number(0), Orientation::R);
    assert_eq!(Orientation::from_turning_number(1), Orientation::D);
    assert_eq!(Orientation::from_turning_number(2), Orientation::L);
    assert_eq!(Orientation::from_turning_number(-1), Orientation::U);
    assert_eq!(Orientation::from_turning_number(-6), Orientation::L);
    assert_eq!(Orientation::from_turning_number(i32::MIN), Orientation::R);
}

#[test]
fn insertion_without_cursor_advance() {
    let policy = RewritePolicy { interior_only: true, advance_after_insert: false };
    let out = texts(&Rewriter::rewrite_with(&enzyme("cop-int-ina-swi-mvr"), &strand("TTAGC"), policy));
    assert_eq!(out, vec!["ATT", "TTAATGC"]);
    let s = strand("TAGATCCAGTCCACATCGA");
    let e = enzyme("rpy-ina-rpu-mvr-int-mvl-cut-swi-cop");
    assert_eq!(texts(&Rewriter::rewrite_with(&e, &s, policy)), vec!["ATGTCCACATCGA", "TAGATCCA"]);
    assert_eq!(
        texts(&Rewriter::rewrite_with(&e, &s, RewritePolicy::standard())),
        texts(&Rewriter::rewrite(&e, &s))
    );
}

#[test]
fn folding_with_all_amino_acids() {
    assert_eq!(Folder::fold_with(&enzyme("cop"), false), Orientation::D);
    assert_eq!(Folder::fold_with(&enzyme("cop"), true), Orientation::R);
    assert_eq!(Folder::fold_with(&enzyme("off-cut-swi-swi"), false), Orientation::D);
    assert_eq!(Folder::get_binding_site_with(&enzyme("cop"), &strand("A"), false), None);
    let policy = RewritePolicy { interior_only: false, advance_after_insert: true };
    assert_eq!(texts(&Rewriter::rewrite_with(&enzyme("cop"), &strand("A"), policy)), vec!["A"]);
}
