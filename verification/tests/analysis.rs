use drone_core::analysis::{count_categorical, longest_flight_segment, MIN_FLIGHT_SAMPLES};

fn strings(v: &[&str]) -> Vec<String> {
    v.iter().map(|s| s.to_string()).collect()
}

#[test]
fn counts_most_frequent_first() {
    let values = strings(&["Armed", "Disarmed", "Armed", "", "Fault", "Armed", "Disarmed"]);
    let counts = count_categorical(&values);
    assert_eq!(counts.len(), 3);
    assert_eq!(counts[0], ("Armed".to_string(), 3));
    assert_eq!(counts[1], ("Disarmed".to_string(), 2));
    assert_eq!(counts[2], ("Fault".to_string(), 1));
}

#[test]
fn counts_ignore_empty_cells() {
    assert!(count_categorical(&strings(&["", "", ""])).is_empty());
    assert!(count_categorical(&[]).is_empty());
}

#[test]
fn counts_overtake_earlier_values() {
    let values = strings(&["Manual", "Stabilized", "Stabilized", "Manual", "Stabilized"]);
    let counts = count_categorical(&values);
    assert_eq!(
        counts,
        vec![("Stabilized".to_string(), 3), ("Manual".to_string(), 2)]
    );
}

fn flags(runs: &[(bool, usize)]) -> Vec<bool> {
    let mut v = Vec::new();
    for &(b, n) in runs {
        v.extend(std::iter::repeat(b).take(n));
    }
    v
}

#[test]
fn longest_segment_is_found() {
    let f = flags(&[(true, 25), (false, 3), (true, 40), (false, 1), (true, 30)]);
    let seg = longest_flight_segment(&f).unwrap();
    assert_eq!(seg, (28..68).collect::<Vec<usize>>());
}

#[test]
fn earliest_of_equally_long_segments_wins() {
    let f = flags(&[(false, 2), (true, 21), (false, 1), (true, 21)]);
    let seg = longest_flight_segment(&f).unwrap();
    assert_eq!(seg, (2..23).collect::<Vec<usize>>());
}

#[test]
fn segment_running_to_the_end() {
    let f = flags(&[(true, 5), (false, 5), (true, MIN_FLIGHT_SAMPLES)]);
    let seg = longest_flight_segment(&f).unwrap();
    assert_eq!(seg, (10..30).collect::<Vec<usize>>());
}

#[test]
fn short_segments_give_none() {
    let f = flags(&[(true, 19), (false, 1), (true, 19)]);
    assert_eq!(longest_flight_segment(&f), None);
    assert_eq!(longest_flight_segment(&[]), None);
    assert_eq!(longest_flight_segment(&vec![false; 100]), None);
}
