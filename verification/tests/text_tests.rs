use guerrillamail::text::extract_alias;
use guerrillamail::text::u64_to_dec;

#[test]
fn alias_of_plain_address() {
    assert_eq!(extract_alias("foo@bar.com"), "foo");
}

#[test]
fn alias_without_at_is_whole_string() {
    assert_eq!(extract_alias("foobar"), "foobar");
}

#[test]
fn alias_of_empty_local_part() {
    assert_eq!(extract_alias("@bar.com"), "");
}

#[test]
fn alias_stops_at_first_at() {
    assert_eq!(extract_alias("a@b@c"), "a");
}

#[test]
fn alias_of_empty_string() {
    assert_eq!(extract_alias(""), "");
}

#[test]
fn decimal_of_zero() {
    assert_eq!(u64_to_dec(0), "0");
}

#[test]
fn decimal_of_large_value() {
    assert_eq!(u64_to_dec(1700000000123), "1700000000123");
}

#[test]
fn decimal_of_single_digit() {
    assert_eq!(u64_to_dec(7), "7");
}

#[test]
fn decimals_of_distinct_values_differ() {
    assert_ne!(u64_to_dec(1700000000123), u64_to_dec(1700000000124));
}
