use attractor_search::search::offspring_parents;

#[test]
fn parents_even_population() {
    assert_eq!(offspring_parents(6), vec![0, 1, 2]);
}

#[test]
fn parents_odd_population() {
    assert_eq!(offspring_parents(5), vec![0, 1, 0]);
}

#[test]
fn parents_empty_population() {
    assert_eq!(offspring_parents(0), Vec::<usize>::new());
}

#[test]
fn parents_default_population() {
    let p = offspring_parents(200);
    assert_eq!(p.len(), 100);
    for (k, &i) in p.iter().enumerate() {
        assert_eq!(i, k);
    }
}
