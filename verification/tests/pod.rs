use kubetui::pod::{age, pod_lines, PodInfo};

#[test]
fn an_age_is_given_in_its_largest_unit() {
    assert_eq!(age(0), "0s");
    assert_eq!(age(59), "59s");
    assert_eq!(age(60), "1m");
    assert_eq!(age(3599), "59m");
    assert_eq!(age(3600), "1h");
    assert_eq!(age(86399), "23h");
    assert_eq!(age(86400), "1d");
    assert_eq!(age(200000), "2d");
    assert_eq!(age(u64::MAX), "213503982334601d");
}

#[test]
fn the_names_of_pods_are_filled_up_to_the_longest() {
    let pods = vec![
        PodInfo::new("a".to_string(), "Running".to_string(), age(120)),
        PodInfo::new("abc".to_string(), "Pending".to_string(), age(7)),
    ];
    assert_eq!(
        pod_lines(&pods),
        Some(vec!["a       Running    2m".to_string(), "abc     Pending    7s".to_string()])
    );
}
