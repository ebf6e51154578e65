use chat_label_printer::ingest::{check_message, moderate, trim_message, Moderation};

fn reply_of(verdict: Moderation) -> Option<String> {
    match verdict {
        Moderation::Accepted => None,
        Moderation::Rejected(reply) => Some(reply),
    }
}

#[test]
fn flagged_message_is_rejected_when_censoring_is_on() {
    assert_eq!(reply_of(moderate(true, true, "kim")), Some(":Hey kim, i will not print that".to_string()));
    assert_eq!(reply_of(moderate(true, false, "kim")), None);
    assert_eq!(reply_of(moderate(false, true, "kim")), None);
    assert_eq!(reply_of(moderate(false, false, "kim")), None);
    assert_eq!(reply_of(moderate(true, true, "")), Some(":Hey , i will not print that".to_string()));
}

#[test]
fn filter_tells_messages_apart() {
    assert_eq!(reply_of(check_message("hello world 20,20,5", true, "kim")), None);
    assert_eq!(reply_of(check_message("logo 10,10,2", true, "kim")), None);
    assert_eq!(
        reply_of(check_message("fuck 10,10,2", true, "kim")),
        Some(":Hey kim, i will not print that".to_string())
    );
    assert_eq!(reply_of(check_message("fuck 10,10,2", false, "kim")), None);
}

#[test]
fn messages_are_trimmed() {
    assert_eq!(trim_message("  logo 10,10,2 \r\n"), "logo 10,10,2");
    assert_eq!(trim_message("\u{3000}a b\u{a0}"), "a b");
    assert_eq!(trim_message(" \t "), "");
    assert_eq!(trim_message(""), "");
    assert_eq!(trim_message("x"), "x");
    assert_eq!(trim_message("\0x\0"), "\0x\0");
}
