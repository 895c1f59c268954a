use kube_autorollout::secret_string::{SecretString, decimal_string};

#[test]
fn secret_round_trip_through_expose() {
    let s = SecretString::new("super-secret".to_string());
    assert_eq!(s.expose_secret(), "super-secret");
}

#[test]
fn redacted_form_has_fixed_shape() {
    let s = SecretString::new("12345".to_string());
    assert_eq!(s.get_redacted_secret(), "<REDACTED, length 5>");
    let empty = SecretString::new(String::new());
    assert_eq!(empty.get_redacted_secret(), "<REDACTED, length 0>");
    let long = SecretString::new("x".repeat(1234));
    assert_eq!(long.get_redacted_secret(), "<REDACTED, length 1234>");
}

#[test]
fn decimal_rendering() {
    assert_eq!(decimal_string(0), "0");
    assert_eq!(decimal_string(7), "7");
    assert_eq!(decimal_string(10), "10");
    assert_eq!(decimal_string(90210), "90210");
    assert_eq!(decimal_string(usize::MAX), usize::MAX.to_string());
}

#[test]
fn clone_keeps_the_secret() {
    let s = SecretString::new("abc".to_string());
    let t = s.clone();
    assert_eq!(t.expose_secret(), "abc");
}
