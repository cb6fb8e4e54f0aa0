use cas_client::{Attributes, CasUser};

// Round-trip: deserializing a serialized user gives the user back.

#[test]
fn round_trip_without_attributes() {
    let user = CasUser::new("alice", None);
    let raw = user.to_raw();
    let back = CasUser::from_raw(raw.as_str()).unwrap();
    assert_eq!(back, user);
}

#[test]
fn round_trip_with_empty_attribute_map() {
    let user = CasUser::new("bob", Some(Attributes::new()));
    let back = CasUser::from_raw(user.to_raw().as_str()).unwrap();
    assert_eq!(back, user);
    assert_eq!(back.attributes(), Attributes::new());
}

#[test]
fn round_trip_with_attributes() {
    let mut attrs = Attributes::new();
    attrs.insert_if_absent("Attribute 1".to_string(), "value 1".to_string());
    attrs.insert_if_absent("Attribute 2".to_string(), "value 2".to_string());
    let user = CasUser::new("user", Some(attrs.clone()));
    let back = CasUser::from_raw(user.to_raw().as_str()).unwrap();
    assert_eq!(back, user);
    assert_eq!(back.username(), "user");
    assert_eq!(back.attributes(), attrs);
}

// Separator and escape characters inside fields survive the round trip.
#[test]
fn round_trip_with_separator_and_escape_characters() {
    let mut attrs = Attributes::new();
    attrs.insert_if_absent("note\nwith\nnewlines".to_string(), "a\\b\\c".to_string());
    attrs.insert_if_absent("plain".to_string(), "line1\nline2\\end".to_string());
    let user = CasUser::new("we\\ird\nname", Some(attrs));
    let back = CasUser::from_raw(user.to_raw().as_str()).unwrap();
    assert_eq!(back, user);
}

#[test]
fn round_trip_with_unicode() {
    let mut attrs = Attributes::new();
    attrs.insert_if_absent("ville".to_string(), "Zürich".to_string());
    let user = CasUser::new("émilie", Some(attrs));
    let back = CasUser::from_raw(user.to_raw().as_str()).unwrap();
    assert_eq!(back, user);
}

// The serialized form itself: fields separated by newlines, in order.
#[test]
fn serialized_form_is_fields_separated_by_newlines() {
    let mut attrs = Attributes::new();
    attrs.insert_if_absent("k1".to_string(), "v1".to_string());
    attrs.insert_if_absent("k2".to_string(), "v2".to_string());
    let user = CasUser::new("alice", Some(attrs));
    assert_eq!(user.to_raw(), "alice\nk1\nv1\nk2\nv2");
    assert_eq!(user.into_raw(), "alice\nk1\nv1\nk2\nv2");
}

#[test]
fn serialized_form_escapes_specials() {
    let user = CasUser::new("a\nb\\c", None);
    assert_eq!(user.to_raw(), "a\\nb\\\\c");
}

// Strings that are not well-formed encodings decode to nothing.
#[test]
fn from_raw_rejects_malformed_input() {
    // An even number of fields: a key without a value.
    assert!(CasUser::from_raw("alice\nkey").is_none());
    // A trailing escape character.
    assert!(CasUser::from_raw("alice\\").is_none());
    // An invalid escape pair.
    assert!(CasUser::from_raw("ali\\xce").is_none());
    // A duplicate attribute key.
    assert!(CasUser::from_raw("alice\nk\nv1\nk\nv2").is_none());
}

// A lone field decodes to a user with that name and no attributes; the
// empty string decodes to the empty username.
#[test]
fn from_raw_accepts_minimal_forms() {
    let u = CasUser::from_raw("dave").unwrap();
    assert_eq!(u.username(), "dave");
    assert_eq!(u.attributes(), Attributes::new());

    let u = CasUser::from_raw("").unwrap();
    assert_eq!(u.username(), "");
}
