use minitop::render::{contains, is_summary_sensor};

#[test]
fn substring_search() {
    assert!(contains("coretemp Package id 0", "Package id 0"));
    assert!(contains("abc", ""));
    assert!(contains("abc", "abc"));
    assert!(!contains("ab", "abc"));
    assert!(!contains("Package id 1", "Package id 0"));
    assert!(contains("aab", "ab"));
}

#[test]
fn summary_sensors_are_package_and_composite() {
    assert!(is_summary_sensor("coretemp Package id 0"));
    assert!(is_summary_sensor("nvme Composite WDC"));
    assert!(!is_summary_sensor("coretemp Core 0"));
    assert!(!is_summary_sensor(""));
}
