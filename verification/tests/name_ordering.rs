use regxorder::ordering::{name_order, order_by_name};

fn names(values: &[Option<&str>]) -> Vec<Option<String>> {
    values.iter().map(|value| value.map(String::from)).collect()
}

#[test]
fn names_sort_by_code_point_with_missing_names_first() {
    let order = name_order(&names(&[
        Some("b"),
        Some("ab"),
        None,
        Some("a"),
        Some("Z"),
        Some(""),
    ]));
    assert_eq!(order, vec![2, 5, 4, 3, 1, 0]);
}

#[test]
fn equal_names_keep_their_order() {
    let sorted = order_by_name(
        vec!["first b", "a", "second b", "third b"],
        &names(&[Some("b"), Some("a"), Some("b"), Some("b")]),
    );
    assert_eq!(sorted, vec!["a", "first b", "second b", "third b"]);
}

#[test]
fn name_order_matches_the_standard_string_order() {
    let samples = ["capture-010.json", "capture-002.json", "Élan.json", "zeta", "Zeta", "capture-002.jsonx", "é", "e"];
    let order = name_order(&samples.iter().map(|s| Some(String::from(*s))).collect());
    let mut expected: Vec<usize> = (0..samples.len()).collect();
    expected.sort_by(|a, b| samples[*a].cmp(samples[*b]));
    assert_eq!(order, expected);
}
