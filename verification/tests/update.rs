use acs::update::{
    parse_ls_remote_tags, parse_update_args, resolve_requested_tag, UpdateAction,
};

#[test]
fn parse_update_args_requires_target() {
    assert!(parse_update_args(Vec::new()).is_err());
}

#[test]
fn parse_update_args_accepts_list_latest_and_version() {
    assert_eq!(
        parse_update_args(vec![String::from("list")]).unwrap(),
        UpdateAction::List
    );
    assert_eq!(
        parse_update_args(vec![String::from("latest")]).unwrap(),
        UpdateAction::Latest
    );
    assert_eq!(
        parse_update_args(vec![String::from("v1.2.3")]).unwrap(),
        UpdateAction::Version(String::from("v1.2.3"))
    );
}

#[test]
fn parse_update_args_rejects_extra_arguments() {
    assert!(parse_update_args(vec![String::from("latest"), String::from("v1.2.3")]).is_err());
}

#[test]
fn parse_ls_remote_tags_extracts_tag_names() {
    let output = "\
abcd1234\trefs/tags/v1.2.3
beef5678\trefs/tags/v1.2.2
ignored\trefs/heads/main
";
    assert_eq!(
        parse_ls_remote_tags(output),
        vec![String::from("v1.2.3"), String::from("v1.2.2")]
    );
}

#[test]
fn resolve_requested_tag_accepts_exact_or_unprefixed_version() {
    let tags = vec![String::from("v1.2.3"), String::from("release-test")];
    assert_eq!(resolve_requested_tag("v1.2.3", &tags).unwrap(), "v1.2.3");
    assert_eq!(resolve_requested_tag("1.2.3", &tags).unwrap(), "v1.2.3");
    assert_eq!(
        resolve_requested_tag("release-test", &tags).unwrap(),
        "release-test"
    );
}

#[test]
fn resolve_requested_tag_rejects_missing_tag() {
    let tags = vec![String::from("v1.2.3")];
    assert!(resolve_requested_tag("v9.9.9", &tags).is_err());
}
