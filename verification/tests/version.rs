use tool_version::Version;

#[test]
fn test_formatting() {
    let v = Version::new(1, 2, 3);
    assert_eq!(&v.display(), "1.2.3");
    assert_eq!(&v.to_unstable_tool_string(), "0.12.3");
    assert_eq!(&v.to_stable_tool_string(), "12.3.0");
}

#[test]
fn test_from_str() {
    assert_eq!(Version::from_string("0.0"), None);
    assert_eq!(Version::from_string("0.0.a"), None);
    assert_eq!(Version::from_string("0.."), None);
    assert_eq!(Version::from_string("0.0.0"), Some(Version::new(0, 0, 0)));
    assert_eq!(Version::from_string("3.2.1"), Some(Version::new(3, 2, 1)));
}

#[test]
fn test_formatting_multi_digit() {
    let v = Version::new(12, 3, 4);
    assert_eq!(&v.display(), "12.3.4");
    assert_eq!(&v.to_unstable_tool_string(), "0.123.4");
    assert_eq!(&v.to_stable_tool_string(), "123.4.0");
}

#[test]
fn test_from_str_trailing_tokens_quirk() {
    // Tokens after the third are silently ignored.
    assert_eq!(Version::from_string("1.2.3.4"), Some(Version::new(1, 2, 3)));
    assert_eq!(Version::from_string("1.2.3."), Some(Version::new(1, 2, 3)));
    assert_eq!(Version::from_string("1.2.3.junk"), Some(Version::new(1, 2, 3)));
}

#[test]
fn test_from_str_more_failures() {
    assert_eq!(Version::from_string(""), None);
    assert_eq!(Version::from_string(".."), None);
    assert_eq!(Version::from_string("1"), None);
    assert_eq!(Version::from_string("1.2"), None);
    assert_eq!(Version::from_string("a.2.3"), None);
    assert_eq!(Version::from_string("1.b.3"), None);
    assert_eq!(Version::from_string("1 .2.3"), None);
    assert_eq!(Version::from_string("-1.2.3"), None);
}

#[test]
fn test_from_str_numeric_edges() {
    // The largest 32-bit value parses; one past it does not.
    assert_eq!(
        Version::from_string("4294967295.0.0"),
        Some(Version::new(4294967295, 0, 0))
    );
    assert_eq!(Version::from_string("4294967296.0.0"), None);
    // Leading zeros and a leading plus sign are accepted digits-wise,
    // as unsigned integer parsing accepts them.
    assert_eq!(Version::from_string("007.08.09"), Some(Version::new(7, 8, 9)));
    assert_eq!(Version::from_string("+1.2.3"), Some(Version::new(1, 2, 3)));
    assert_eq!(Version::from_string("++1.2.3"), None);
}

#[test]
fn test_round_trip() {
    let samples = [
        (0u32, 0u32, 0u32),
        (1, 2, 3),
        (1, 20, 0),
        (12, 3, 4),
        (4294967295, 4294967295, 4294967295),
    ];
    for &(a, b, c) in samples.iter() {
        let v = Version::new(a, b, c);
        assert_eq!(Version::from_string(&v.display()), Some(v));
    }
}

#[test]
fn test_equality() {
    assert_eq!(Version::new(1, 2, 3), Version::new(1, 2, 3));
    assert_ne!(Version::new(1, 2, 3), Version::new(9, 2, 3));
    assert_ne!(Version::new(1, 2, 3), Version::new(1, 9, 3));
    assert_ne!(Version::new(1, 2, 3), Version::new(1, 2, 9));
}

#[test]
fn test_constants() {
    assert_eq!(tool_version::current_stable(), Version::new(1, 20, 0));
    assert_eq!(tool_version::current_beta(), Version::new(1, 21, 0));
    assert_eq!(tool_version::current_nightly(), Version::new(1, 22, 0));
}

#[test]
fn test_from_env_var_absent() {
    // With the build-time version key unset, there is no version.
    assert_eq!(Version::from_env_var(None), None);
}

#[test]
fn test_from_env_var_present() {
    assert_eq!(Version::from_env_var(Some("1.20.0")), Some(Version::new(1, 20, 0)));
    assert_eq!(Version::from_env_var(Some("nightly")), None);
}

#[test]
fn test_channel() {
    assert_eq!(tool_version::channel(None), None);
    assert_eq!(tool_version::channel(Some("beta")), Some("beta"));
}
