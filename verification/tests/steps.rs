use dwd_alerts::list::{convert_warnings, flatten_groups};
use dwd_alerts::sorting::sort_by_start;
use dwd_alerts::{AlertError, RawGroup, RawWarning, Warning};

fn alert(headline: &str, start: i64) -> RawWarning {
    RawWarning {
        state: String::new(),
        category: 0,
        level: 0,
        start,
        end: None,
        region_name: String::new(),
        event: String::new(),
        headline: String::from(headline),
        instruction: String::new(),
        description: String::new(),
        state_short: String::new(),
        altitude_start: None,
        altitude_end: None,
    }
}

fn names(warnings: &[Warning]) -> Vec<String> {
    warnings.iter().map(|w| w.headline.clone()).collect()
}

#[test]
fn flatten_keeps_the_order_of_groups_and_members() {
    let groups = vec![
        RawGroup { key: String::from("Z"), warnings: vec![alert("z1", 3), alert("z2", 1)] },
        RawGroup { key: String::from("A"), warnings: vec![] },
        RawGroup { key: String::from("M"), warnings: vec![alert("m1", 2)] },
    ];
    let all = flatten_groups(groups);
    let names: Vec<String> = all.iter().map(|w| w.headline.clone()).collect();
    assert_eq!(names, vec!["z1", "z2", "m1"]);
}

#[test]
fn flatten_of_nothing_is_empty() {
    assert!(flatten_groups(Vec::new()).is_empty());
}

#[test]
fn convert_keeps_the_order() {
    let warnings = convert_warnings(vec![alert("b", 2), alert("a", 1)]).unwrap();
    assert_eq!(names(&warnings), vec!["b", "a"]);
}

#[test]
fn convert_fails_on_one_bad_alert() {
    let result = convert_warnings(vec![alert("a", 1), alert("bad", i64::MIN), alert("c", 3)]);
    assert!(matches!(result, Err(AlertError::DateParsingError)));
}

#[test]
fn sort_is_stable_and_ascending() {
    let warnings = convert_warnings(vec![
        alert("a", 2),
        alert("b", 1),
        alert("c", 2),
        alert("d", 1),
        alert("e", 0),
        alert("f", 2),
    ])
    .unwrap();
    let sorted = sort_by_start(warnings);
    assert_eq!(names(&sorted), vec!["e", "b", "d", "a", "c", "f"]);
}

#[test]
fn sort_of_sorted_input_changes_nothing() {
    let warnings = convert_warnings(vec![alert("a", 1), alert("b", 2), alert("c", 3)]).unwrap();
    let sorted = sort_by_start(warnings.clone());
    assert_eq!(sorted, warnings);
}
