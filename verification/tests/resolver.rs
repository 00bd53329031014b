use cargo_workspaces::Resolver;

#[test]
fn resolver_names_are_the_version_numbers() {
    assert_eq!(Resolver::V1.name(), "1");
    assert_eq!(Resolver::V2.name(), "2");
    assert_eq!(Resolver::V3.name(), "3");
}

#[test]
fn resolver_defaults_to_the_newest() {
    assert_eq!(Resolver::or_newest(None), Resolver::V3);
}

#[test]
fn resolver_keeps_what_was_requested() {
    assert_eq!(Resolver::or_newest(Some(Resolver::V1)), Resolver::V1);
    assert_eq!(Resolver::or_newest(Some(Resolver::V2)), Resolver::V2);
    assert_eq!(Resolver::or_newest(Some(Resolver::V3)), Resolver::V3);
}
