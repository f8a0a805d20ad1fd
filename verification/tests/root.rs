use watercontroller::{greeting, version};

#[test]
fn greeting_includes_version() {
    let g = greeting();
    assert!(g.contains(version()));
    assert!(g.starts_with("watercontroller-core"));
}
