use chat_label_printer::notify::{is_header_value, NotifyBuilder};

fn pair(name: &str, value: &str) -> (String, String) {
    (name.to_string(), value.to_string())
}

#[test]
fn test_notify() {
    let notif = NotifyBuilder::new("Hello world".to_string())
        .set_title("Hello world".to_string())
        .set_priority("high".to_string())
        .set_tags("warning,error,smile".to_string())
        .add_action("Google".to_string(), "https://google.com".to_string())
        .prepare("https://ntfy.sh/goog");

    println!("{:?}", notif);
    let notif = notif.unwrap();
    assert_eq!(notif.url, "https://ntfy.sh/goog");
    assert_eq!(notif.body, "Hello world");
    assert_eq!(
        notif.headers,
        vec![
            pair("title", "Hello world"),
            pair("priority", "high"),
            pair("tags", "warning,error,smile"),
            pair("actions", "view, Google, https://google.com;"),
        ]
    );
}

#[test]
fn empty_address_gives_nothing_to_post() {
    assert!(NotifyBuilder::new("body".to_string()).prepare("").is_none());
}

#[test]
fn notification_without_headers_still_names_its_actions() {
    let ready = NotifyBuilder::new("Error in printer thread".to_string()).prepare("http://x").unwrap();
    assert_eq!(ready.headers, vec![pair("actions", "")]);
}

#[test]
fn later_header_replaces_the_earlier_one() {
    let ready = NotifyBuilder::new(String::new())
        .set_priority("high".to_string())
        .set_priority("low".to_string())
        .prepare("http://x")
        .unwrap();
    assert_eq!(ready.headers, vec![pair("priority", "low"), pair("actions", "")]);
}

#[test]
fn actions_are_listed_in_order() {
    let builder = NotifyBuilder::new(String::new())
        .add_action("A".to_string(), "http://a".to_string())
        .add_action("B".to_string(), "http://b".to_string());
    assert_eq!(builder.actions_header(), "view, A, http://a;view, B, http://b;");
}

#[test]
fn header_values_hold_no_control_characters_but_the_tab() {
    assert!(is_header_value("plain text"));
    assert!(is_header_value(""));
    assert!(is_header_value("tab\tbed"));
    assert!(is_header_value("caf\u{e9} \u{1F600}"));
    assert!(is_header_value("\u{80}"));
    assert!(!is_header_value("line\nbreak"));
    assert!(!is_header_value("\r"));
    assert!(!is_header_value("\0"));
    assert!(!is_header_value("\u{7f}"));
    assert!(!is_header_value("\u{1f}"));
}
