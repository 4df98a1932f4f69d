use propositional_logic::table::build;
use propositional_logic::table::BuildError;
use propositional_logic::table::Formula;

fn atom(i: usize) -> Formula {
    Formula::Atom(i)
}

fn neg(f: Formula) -> Formula {
    Formula::Not(Box::new(f))
}

fn conj(f: Formula, g: Formula) -> Formula {
    Formula::And(Box::new(f), Box::new(g))
}

fn disj(f: Formula, g: Formula) -> Formula {
    Formula::Or(Box::new(f), Box::new(g))
}

fn equiv(f: Formula, g: Formula) -> Formula {
    Formula::Iff(Box::new(f), Box::new(g))
}

fn names(list: &[&str]) -> Vec<String> {
    list.iter().map(|s| s.to_string()).collect()
}

#[test]
fn test_build_iff_two_atomics() {
    let atomics = names(&["p", "q"]);
    let props = vec![("iff_pq".to_string(), equiv(atom(0), atom(1)))];
    let table = build(&atomics, &props).unwrap();
    assert_eq!(table.header, names(&["p", "q", "iff_pq"]));
    assert_eq!(
        table.rows,
        vec![
            vec![true, true, true],
            vec![true, false, false],
            vec![false, true, false],
            vec![false, false, true],
        ]
    );
}

#[test]
fn test_build_without_props_has_assignment_rows_only() {
    let atomics = names(&["p", "q", "r"]);
    let props: Vec<(String, Formula)> = vec![];
    let table = build(&atomics, &props).unwrap();
    assert_eq!(table.header.len(), 3);
    assert_eq!(table.header, atomics);
    assert_eq!(table.rows.len(), 8);
    for row in &table.rows {
        assert_eq!(row.len(), 3);
    }
}

#[test]
fn test_build_arity_mismatch_fails_fast() {
    let atomics = names(&["p"]);
    let props = vec![
        ("fine".to_string(), atom(0)),
        ("too_wide".to_string(), conj(atom(0), atom(1))),
    ];
    let result = build(&atomics, &props);
    assert_eq!(result, Err(BuildError::ArityMismatch("too_wide".to_string())));
}

#[test]
fn test_build_empty_atom_name() {
    let atomics = names(&["p", ""]);
    let props: Vec<(String, Formula)> = vec![];
    let result = build(&atomics, &props);
    assert_eq!(result, Err(BuildError::EmptyAtomName(1)));
}

#[test]
fn test_build_duplicate_atom_name() {
    let atomics = names(&["p", "q", "p"]);
    let props: Vec<(String, Formula)> = vec![];
    let result = build(&atomics, &props);
    assert_eq!(result, Err(BuildError::DuplicateAtomName(2)));
}

#[test]
fn test_double_negation_round_trip() {
    // evaluating not(not(x)) over one atomic gives back x on both rows
    let atomics = names(&["x"]);
    let props = vec![("double_neg".to_string(), neg(neg(atom(0))))];
    let table = build(&atomics, &props).unwrap();
    assert_eq!(table.rows.len(), 2);
    for row in &table.rows {
        assert_eq!(row[1], row[0]);
    }
    assert_eq!(table.rows[0], vec![true, true]);
    assert_eq!(table.rows[1], vec![false, false]);
}

#[test]
fn test_build_twice_identical() {
    let atomics = names(&["p", "q"]);
    let props = vec![
        ("either".to_string(), disj(atom(0), atom(1))),
        ("both".to_string(), conj(atom(0), atom(1))),
    ];
    let first = build(&atomics, &props).unwrap();
    let second = build(&atomics, &props).unwrap();
    assert_eq!(first, second);
}

#[test]
fn test_build_zero_atomics_constant_prop() {
    // no atomics: the single empty assignment, propositions are 0-ary constants
    let atomics = names(&[]);
    let props = vec![("always".to_string(), Formula::Const(true))];
    let table = build(&atomics, &props).unwrap();
    assert_eq!(table.header, names(&["always"]));
    assert_eq!(table.rows, vec![vec![true]]);
}

#[test]
fn test_build_compound_three_atomics() {
    // iff(q, (p && !q) || (!p && q)) && r, over |p, q, r|
    let atomics = names(&["p", "q", "r"]);
    let body = conj(
        equiv(
            atom(1),
            disj(conj(atom(0), neg(atom(1))), conj(neg(atom(0)), atom(1))),
        ),
        atom(2),
    );
    let props = vec![("compound_proposition".to_string(), body)];
    let table = build(&atomics, &props).unwrap();
    let expected_results = [false, false, false, false, true, false, true, false];
    assert_eq!(table.rows.len(), 8);
    for (row, expected) in table.rows.iter().zip(expected_results.iter()) {
        assert_eq!(row[3], *expected);
    }
}

#[test]
fn test_build_mixed_connectives_columns() {
    let atomics = names(&["p", "q"]);
    let props = vec![
        ("nand".to_string(), neg(conj(atom(0), atom(1)))),
        (
            "xor_pq".to_string(),
            Formula::Xor(Box::new(atom(0)), Box::new(atom(1))),
        ),
        (
            "imply_pq".to_string(),
            Formula::Imply(Box::new(atom(0)), Box::new(atom(1))),
        ),
    ];
    let table = build(&atomics, &props).unwrap();
    assert_eq!(
        table.header,
        names(&["p", "q", "nand", "xor_pq", "imply_pq"])
    );
    assert_eq!(
        table.rows,
        vec![
            vec![true, true, false, false, true],
            vec![true, false, true, true, false],
            vec![false, true, true, true, true],
            vec![false, false, true, false, true],
        ]
    );
}

#[test]
fn test_build_zero_atomics_rejects_unary_prop() {
    // with no atomics declared, only 0-ary propositions are valid
    let atomics: Vec<String> = vec![];
    let props = vec![("reads_p".to_string(), atom(0))];
    let result = build(&atomics, &props);
    assert_eq!(result, Err(BuildError::ArityMismatch("reads_p".to_string())));
}
