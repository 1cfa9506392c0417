use udp_socket_service::parsers::{as_number, split2};

#[test]
fn test_split2_kv() {
    let msg = "set key my wordy key";
    let (left, right) = split2(msg);
    println!("{}: {}", left, right);
    assert_eq!(left, "set");
    assert_eq!(right, "key my wordy key");
}

#[test]
fn test_split2_k() {
    let msg = "get key";
    let (left, right) = split2(msg);
    println!("{}: {}", left, right);
    assert_eq!(left, "get");
    assert_eq!(right, "key");
}

#[test]
fn as_number_reads_digits() {
    assert_eq!(as_number("42", u64::MAX), Ok(42));
}
