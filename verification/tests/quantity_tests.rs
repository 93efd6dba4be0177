use kubeowler::resource_quantity::{parse_cpu_str, parse_memory_str};

#[test]
fn test_parse_cpu_quantities() {
    assert_eq!(parse_cpu_str("500m"), Some(500));
    assert_eq!(parse_cpu_str("1"), Some(1000));
    assert_eq!(parse_cpu_str("1.5"), Some(1500));
    assert_eq!(parse_cpu_str("0.1"), Some(100));
    assert_eq!(parse_cpu_str("2.25"), Some(2250));
    assert_eq!(parse_cpu_str(" 250m "), Some(250));
    assert_eq!(parse_cpu_str("-1"), Some(-1000));
    assert_eq!(parse_cpu_str(".5"), Some(500));
    assert_eq!(parse_cpu_str("1."), Some(1000));
    assert_eq!(parse_cpu_str("0.0005"), Some(0));
    assert_eq!(parse_cpu_str(""), None);
    assert_eq!(parse_cpu_str("abc"), None);
    assert_eq!(parse_cpu_str("1.2.3"), None);
    assert_eq!(parse_cpu_str("1.5m"), None);
}

#[test]
fn test_parse_cpu_exponent_forms() {
    // exponents scale in exact decimal arithmetic
    assert_eq!(parse_cpu_str("1e3"), Some(1_000_000));
    assert_eq!(parse_cpu_str("2.5e2"), Some(250_000));
    assert_eq!(parse_cpu_str("1E3"), Some(1_000_000));
    assert_eq!(parse_cpu_str("1e-3"), Some(1));
    assert_eq!(parse_cpu_str("5e-4"), Some(0));
    assert_eq!(parse_cpu_str("-1e3"), Some(-1_000_000));
    assert_eq!(parse_cpu_str("0e999999999999999999999"), Some(0));
    assert_eq!(parse_cpu_str("1e999999999999999999999"), Some(i64::MAX));
    assert_eq!(parse_cpu_str("1e-999999999999999999999"), Some(0));
    assert_eq!(parse_cpu_str("1e"), None);
    assert_eq!(parse_cpu_str("1e2e3"), None);
}

#[test]
fn test_parse_cpu_special_floats() {
    // the float grammar's special values, clamped as a conversion clamps
    assert_eq!(parse_cpu_str("inf"), Some(i64::MAX));
    assert_eq!(parse_cpu_str("Infinity"), Some(i64::MAX));
    assert_eq!(parse_cpu_str("-inf"), Some(i64::MIN));
    assert_eq!(parse_cpu_str("NaN"), Some(0));
    // a plain value out of range saturates rather than failing
    assert_eq!(parse_cpu_str("99999999999999999999"), Some(i64::MAX));
    assert_eq!(parse_cpu_str("-99999999999999999999"), Some(i64::MIN));
}

#[test]
fn test_parse_memory_quantities() {
    assert_eq!(parse_memory_str("256Mi"), Some(256 * 1024 * 1024));
    assert_eq!(parse_memory_str("1Gi"), Some(1024 * 1024 * 1024));
    assert_eq!(parse_memory_str("1Ki"), Some(1024));
    assert_eq!(parse_memory_str("2Ti"), Some(2i64 * 1024 * 1024 * 1024 * 1024));
    assert_eq!(parse_memory_str("1Pi"), Some(1i64 << 50));
    assert_eq!(parse_memory_str("1024"), Some(1024));
    assert_eq!(parse_memory_str("3M"), Some(3 * 1024 * 1024));
    assert_eq!(parse_memory_str(""), None);
    assert_eq!(parse_memory_str("Mi"), None);
    assert_eq!(parse_memory_str("12x"), None);
}
