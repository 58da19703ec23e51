use pesti::conformance::{delta_minimize, model_verdict, tally_conformance};

#[test]
fn delta_minimize_finds_every_difference() {
    let info = delta_minimize(b"hello world", b"hallo wurld!!");
    assert_eq!(info.divergence_offset, Some(1));
    let positions: Vec<usize> = info.changes.iter().map(|c| c.position).collect();
    assert_eq!(positions, vec![1, 7]);
    assert_eq!(info.changes[0].expected, b'e');
    assert_eq!(info.changes[0].actual, b'a');
    assert_eq!(info.total_bytes_expected, 11);
    assert_eq!(info.total_bytes_actual, 13);
}

#[test]
fn delta_minimize_of_equal_outputs_is_empty() {
    let info = delta_minimize(b"abc", b"abcdef");
    assert_eq!(info.divergence_offset, None);
    assert!(info.changes.is_empty());
}

#[test]
fn verdict_is_decimal_when_outputs_agree() {
    let reference = Some("tokens".to_string());
    assert_eq!(model_verdict(&reference, "tokens", 255, 255), "255");
    assert_eq!(model_verdict(&reference, "tokens", 255, 7), "00000000000000ff");
    assert_eq!(model_verdict(&Some(String::new()), "tokens", 255, 255), "00000000000000ff");
    assert_eq!(model_verdict(&None, "tokens", 0xdead_beef, 0), "00000000deadbeef");
}

#[test]
fn tally_counts_passes_and_failures() {
    let outcomes = vec![
        ("a".to_string(), Ok("0123456789abcdef".to_string())),
        ("b".to_string(), Err("Parse(\"bad\")".to_string())),
        ("c".to_string(), Ok("42".to_string())),
    ];
    let result = tally_conformance(&outcomes);
    assert_eq!(result.total_models, 3);
    assert_eq!(result.passed, vec!["a - hash=01234567".to_string(), "c - hash=42".to_string()]);
    assert_eq!(result.failures.len(), 1);
    assert_eq!(result.failures[0].model_name, "b");
    assert_eq!(result.failures[0].expected_hash, "unknown");
    assert_eq!(result.failures[0].actual_hash, "Parse(\"bad\")");
}

#[test]
fn tally_keeps_first_eight_bytes_of_any_hash() {
    let outcomes = vec![
        ("m".to_string(), Ok("ééééé".to_string())),
        ("n".to_string(), Ok("abc".to_string())),
    ];
    let result = tally_conformance(&outcomes);
    assert_eq!(result.passed, vec!["m - hash=éééé".to_string(), "n - hash=abc".to_string()]);
}
