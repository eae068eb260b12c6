use blockchain_data::{get_timestamp, timestamp_or_zero};

#[test]
fn timestamp_or_zero_defaults_to_zero() {
    assert_eq!(timestamp_or_zero(Some(1_725_029_869)), 1_725_029_869);
    assert_eq!(timestamp_or_zero(None), 0);
}

#[test]
fn get_timestamp_reads_the_clock() {
    let before = std::time::SystemTime::now()
        .duration_since(std::time::UNIX_EPOCH)
        .unwrap()
        .as_secs();
    let t = get_timestamp();
    let after = std::time::SystemTime::now()
        .duration_since(std::time::UNIX_EPOCH)
        .unwrap()
        .as_secs();
    assert!(before <= t && t <= after);
    assert!(t > 1_600_000_000);
}
