use cas_client::{Attributes, CasError, CasClient, CasUser};

#[test]
fn new_user_without_attributes() {
    let cas_user = CasUser::new("user", None);
    assert_eq!(cas_user.username(), "user");
    assert_eq!(cas_user.attributes(), Attributes::new());
}

#[test]
fn new_user_with_attributes() {
    let mut attributes = Attributes::new();
    attributes.insert_if_absent("Attribute 1".to_string(), "value 1".to_string());
    attributes.insert_if_absent("Attribute 2".to_string(), "value 2".to_string());
    let cas_user = CasUser::new("user", Some(attributes.clone()));
    assert_eq!(cas_user.username(), "user");
    assert_eq!(cas_user.attributes(), attributes);
}

#[test]
fn attributes_first_insert_wins() {
    let mut attrs = Attributes::new();
    attrs.insert_if_absent("k".to_string(), "first".to_string());
    attrs.insert_if_absent("k".to_string(), "second".to_string());
    assert_eq!(attrs.len(), 1);
    assert_eq!(attrs.get("k"), Some(&String::from("first")));
    assert!(attrs.contains_key("k"));
    assert!(!attrs.contains_key("missing"));
    assert_eq!(attrs.get("missing"), None);
}

#[test]
fn attributes_keep_insertion_order() {
    let mut attrs = Attributes::new();
    attrs.insert_if_absent("b".to_string(), "2".to_string());
    attrs.insert_if_absent("a".to_string(), "1".to_string());
    let (k0, v0) = attrs.pair_at(0);
    assert_eq!((k0.as_str(), v0.as_str()), ("b", "2"));
    let (k1, v1) = attrs.pair_at(1);
    assert_eq!((k1.as_str(), v1.as_str()), ("a", "1"));
}

// An invalid base URL is a configuration error.
#[test]
fn invalid_base_url_is_a_configuration_error() {
    assert_eq!(
        CasClient::new("not a url").unwrap_err(),
        CasError::Configuration
    );
}
