use hacklet::version::VERSION;

#[test]
fn has_a_version_number() {
    assert!(!VERSION.is_empty(), "VERSION should not be nil");
}
