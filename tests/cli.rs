use attractor_search::cli::parse_flag;

fn args(v: &[&str]) -> Vec<String> {
    v.iter().map(|s| s.to_string()).collect()
}

#[test]
fn flag_with_value() {
    let a = args(&["prog", "random", "--count", "250"]);
    assert_eq!(parse_flag(&a, "--count"), Some(250));
}

#[test]
fn flag_missing() {
    let a = args(&["prog", "random"]);
    assert_eq!(parse_flag(&a, "--count"), None);
}

#[test]
fn flag_without_value() {
    let a = args(&["prog", "evolve", "--pop"]);
    assert_eq!(parse_flag(&a, "--pop"), None);
}

#[test]
fn flag_value_not_a_number() {
    let a = args(&["prog", "evolve", "--pop", "many"]);
    assert_eq!(parse_flag(&a, "--pop"), None);
    let b = args(&["prog", "evolve", "--pop", "-3"]);
    assert_eq!(parse_flag(&b, "--pop"), None);
    let c = args(&["prog", "evolve", "--pop", ""]);
    assert_eq!(parse_flag(&c, "--pop"), None);
}

#[test]
fn flag_value_with_plus_sign() {
    let a = args(&["prog", "evolve", "--generations", "+12"]);
    assert_eq!(parse_flag(&a, "--generations"), Some(12));
}

#[test]
fn flag_first_occurrence_wins() {
    let a = args(&["prog", "--pop", "7", "--pop", "9"]);
    assert_eq!(parse_flag(&a, "--pop"), Some(7));
}

#[test]
fn flag_value_overflow() {
    let a = args(&["prog", "--count", "99999999999999999999999999"]);
    assert_eq!(parse_flag(&a, "--count"), None);
}
