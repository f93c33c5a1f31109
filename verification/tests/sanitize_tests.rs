use file_intake::sanitize::sanitize_name;

#[test]
fn lowercases_and_replaces_space() {
    assert_eq!(sanitize_name("Ciao Mondo!"), "ciao-mondo!");
}

#[test]
fn percent_becomes_per_cento() {
    assert_eq!(sanitize_name("50% è bello"), "50-per-cento--e-bello");
}

#[test]
fn triple_hyphen_collapse_is_literal() {
    // four hyphens: only the first three collapse, leaving two in total
    assert_eq!(sanitize_name("a----b"), "a--b");
}

#[test]
fn seven_hyphens_leave_a_triple() {
    // the collapse pass is not idempotent: seven hyphens still leave three
    assert_eq!(sanitize_name("a-------b"), "a---b");
}

#[test]
fn six_hyphens_collapse_to_two() {
    assert_eq!(sanitize_name("a------b"), "a--b");
}

#[test]
fn trims_whitespace() {
    assert_eq!(sanitize_name("  Foo  "), "foo");
}

#[test]
fn accents_and_punctuation() {
    assert_eq!(sanitize_name("Città d'Estate?"), "citta-d-estate-");
}

#[test]
fn parentheses_slash_ampersand() {
    assert_eq!(sanitize_name("(x)/y&z"), "x-yez");
}

#[test]
fn double_underscore_plus_degree() {
    assert_eq!(sanitize_name("a__b+c°"), "a-b_c_");
}

#[test]
fn sanitize_twice_is_stable_without_long_hyphen_runs() {
    let once = sanitize_name("Città d'Estate? 50% è bello");
    let twice = sanitize_name(&once);
    assert_eq!(twice, once);
}

#[test]
fn empty_name_stays_empty() {
    assert_eq!(sanitize_name(""), "");
}
