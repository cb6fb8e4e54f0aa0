use cas_client::ticket_for_query_string;

#[test]
fn finds_the_ticket_parameter() {
    assert_eq!(
        ticket_for_query_string("ticket=ST-12345"),
        Some(String::from("ST-12345"))
    );
    assert_eq!(
        ticket_for_query_string("a=1&ticket=ST-12345&b=2"),
        Some(String::from("ST-12345"))
    );
}

#[test]
fn absent_ticket_is_none() {
    assert_eq!(ticket_for_query_string(""), None);
    assert_eq!(ticket_for_query_string("a=1&b=2"), None);
    // A key merely containing `ticket` does not count.
    assert_eq!(ticket_for_query_string("proticket=x"), None);
    assert_eq!(ticket_for_query_string("ticket2=x"), None);
}

#[test]
fn ticket_without_value_is_empty() {
    assert_eq!(ticket_for_query_string("ticket"), Some(String::new()));
    assert_eq!(ticket_for_query_string("ticket="), Some(String::new()));
}

#[test]
fn form_urlencoding_is_decoded() {
    assert_eq!(
        ticket_for_query_string("ticket=ST%2D1+2%41"),
        Some(String::from("ST-1 2A"))
    );
    // The key itself may be escaped.
    assert_eq!(
        ticket_for_query_string("%74icket=ST-9"),
        Some(String::from("ST-9"))
    );
}

#[test]
fn last_occurrence_wins() {
    assert_eq!(
        ticket_for_query_string("ticket=first&ticket=second"),
        Some(String::from("second"))
    );
}

#[test]
fn malformed_escape_yields_no_ticket() {
    assert_eq!(ticket_for_query_string("ticket=ST%2"), None);
    assert_eq!(ticket_for_query_string("ticket=ST%GG"), None);
    assert_eq!(ticket_for_query_string("ticket=%FF"), None);
}
