use cas_client::{Attributes, CasClient};

#[test]
fn client_should_parse_saml_response() {
    let cas_url = "https://cas.example.org";
    let cas_client = CasClient::new(cas_url).unwrap();

    let resp = "
        <cas:serviceResponse xmlns:cas=\"http://www.yale.edu/tp/cas\">
        <cas:authenticationFailure code=\"INVALID_TICKET\">
            Ticket ST-1856339-aA5Yuvrxzpv8Tau1cYQ7 not recognized
            </cas:authenticationFailure>
        </cas:serviceResponse>";
    let (user, attr) = cas_client.parse_saml_response(String::from(resp));
    assert_eq!(user, "");
    assert_eq!(attr, Attributes::new());

    let resp = "
        <cas:serviceResponse xmlns:cas=\"http://www.yale.edu/tp/cas\">
        <cas:authenticationSuccess>
            <cas:user>username</cas:user>
        </cas:authenticationSuccess>
        </cas:serviceResponse>";
    let (user, attr) = cas_client.parse_saml_response(String::from(resp));
    assert_eq!(user, "username");
    assert_eq!(attr, Attributes::new());

    let resp = "
        <cas:serviceResponse xmlns:cas=\"http://www.yale.edu/tp/cas\">
        <cas:authenticationSuccess>
            <cas:user>username</cas:user>
            <cas:attributes>
                <cas:firstname>John</cas:firstname>
                <cas:lastname>Doe</cas:lastname>
                <cas:title>Mr.</cas:title>
            </cas:attributes>
        </cas:authenticationSuccess>
        </cas:serviceResponse>";
    let mut attributes = Attributes::new();
    attributes.insert_if_absent("firstname".to_string(), "John".to_string());
    attributes.insert_if_absent("lastname".to_string(), "Doe".to_string());
    attributes.insert_if_absent("title".to_string(), "Mr.".to_string());
    let (user, attr) = cas_client.parse_saml_response(String::from(resp));
    assert_eq!(user, "username");
    assert_eq!(attr, attributes);
}

#[test]
fn tests_should_parse_saml_response() {
    let cas_url = "https://cas.example.org";
    let cas_client = CasClient::new(cas_url).unwrap();

    let resp = "
    <cas:serviceResponse xmlns:cas=\"http://www.yale.edu/tp/cas\">
    <cas:authenticationFailure code=\"INVALID_TICKET\">
        Ticket ST-1856339-aA5Yuvrxzpv8Tau1cYQ7 not recognized
        </cas:authenticationFailure>
    </cas:serviceResponse>";
    let (user, attr) = cas_client.parse_saml_response(String::from(resp));
    assert_eq!(user, "");
    assert_eq!(attr, Attributes::new());

    let resp = "
    <cas:serviceResponse xmlns:cas=\"http://www.yale.edu/tp/cas\">
    <cas:authenticationSuccess>
        <cas:user>username</cas:user>
    </cas:authenticationSuccess>
    </cas:serviceResponse>";
    let (user, attr) = cas_client.parse_saml_response(String::from(resp));
    assert_eq!(user, "username");
    assert_eq!(attr, Attributes::new());

    let resp = "
    <cas:serviceResponse xmlns:cas=\"http://www.yale.edu/tp/cas\">
    <cas:authenticationSuccess>
        <cas:user>username</cas:user>
        <cas:attributes>
            <cas:firstname>John</cas:firstname>
            <cas:lastname>Doe</cas:lastname>
            <cas:title>Mr.</cas:title>
        </cas:attributes>
    </cas:authenticationSuccess>
    </cas:serviceResponse>";
    let mut attributes = Attributes::new();
    attributes.insert_if_absent("firstname".to_string(), "John".to_string());
    attributes.insert_if_absent("lastname".to_string(), "Doe".to_string());
    attributes.insert_if_absent("title".to_string(), "Mr.".to_string());
    let (user, attr) = cas_client.parse_saml_response(String::from(resp));
    assert_eq!(user, "username");
    assert_eq!(attr, attributes);
}

// An authenticationFailure body yields an empty username and no
// attributes.
#[test]
fn failure_body_yields_empty_user_and_no_attributes() {
    let c = CasClient::new("https://cas.example.org").unwrap();
    let body = "<cas:serviceResponse xmlns:cas=\"http://www.yale.edu/tp/cas\">\
        <cas:authenticationFailure code=\"INVALID_TICKET\">bad</cas:authenticationFailure>\
        </cas:serviceResponse>";
    let (user, attr) = c.parse_saml_response(String::from(body));
    assert_eq!(user, "");
    assert_eq!(attr.len(), 0);
    assert!(c.response_user(String::from(body)).is_none());
}

// A success body without an attributes block is a valid success with an
// empty attribute map.
#[test]
fn success_without_attributes_block() {
    let c = CasClient::new("https://cas.example.org").unwrap();
    let body = "<cas:serviceResponse xmlns:cas=\"http://www.yale.edu/tp/cas\">\
        <cas:authenticationSuccess><cas:user>alice</cas:user></cas:authenticationSuccess>\
        </cas:serviceResponse>";
    let (user, attr) = c.parse_saml_response(String::from(body));
    assert_eq!(user, "alice");
    assert_eq!(attr, Attributes::new());

    let u = c.response_user(String::from(body)).unwrap();
    assert_eq!(u.username(), "alice");
    assert_eq!(u.attributes(), Attributes::new());
}

// A success body with attributes yields them under their tag names.
#[test]
fn success_with_attributes() {
    let c = CasClient::new("https://cas.example.org").unwrap();
    let body = "<cas:serviceResponse xmlns:cas=\"http://www.yale.edu/tp/cas\">\
        <cas:authenticationSuccess><cas:user>alice</cas:user>\
        <cas:attributes>\
        <cas:firstname>John</cas:firstname>\
        <cas:lastname>Doe</cas:lastname>\
        </cas:attributes>\
        </cas:authenticationSuccess></cas:serviceResponse>";
    let u = c.response_user(String::from(body)).unwrap();
    assert_eq!(u.username(), "alice");
    let attrs = u.attributes();
    assert_eq!(attrs.len(), 2);
    assert_eq!(attrs.get("firstname"), Some(&String::from("John")));
    assert_eq!(attrs.get("lastname"), Some(&String::from("Doe")));
}

// When the same tag name appears twice, the first occurrence wins.
#[test]
fn duplicate_attribute_first_occurrence_wins() {
    let c = CasClient::new("https://cas.example.org").unwrap();
    let body = "<cas:serviceResponse xmlns:cas=\"http://www.yale.edu/tp/cas\">\
        <cas:authenticationSuccess><cas:user>alice</cas:user>\
        <cas:attributes>\
        <cas:role>admin</cas:role>\
        <cas:role>guest</cas:role>\
        </cas:attributes>\
        </cas:authenticationSuccess></cas:serviceResponse>";
    let (_, attrs) = c.parse_saml_response(String::from(body));
    assert_eq!(attrs.len(), 1);
    assert_eq!(attrs.get("role"), Some(&String::from("admin")));
}

// A body that is not XML at all is a parse failure, not a panic: empty
// username, empty attributes, no user.
#[test]
fn malformed_xml_is_a_validation_failure() {
    let c = CasClient::new("https://cas.example.org").unwrap();
    let (user, attr) = c.parse_saml_response(String::from("this is not xml <"));
    assert_eq!(user, "");
    assert_eq!(attr, Attributes::new());
    assert!(c.response_user(String::from("this is not xml <")).is_none());
}

// The namespace prefix may vary or be absent; dispatch is on the local
// name.
#[test]
fn namespace_prefix_is_ignored() {
    let c = CasClient::new("https://cas.example.org").unwrap();
    let body = "<serviceResponse>\
        <authenticationSuccess><user>bob</user></authenticationSuccess>\
        </serviceResponse>";
    let u = c.response_user(String::from(body)).unwrap();
    assert_eq!(u.username(), "bob");
}
