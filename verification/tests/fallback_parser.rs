use chat_label_printer::fallback_parser::parse_string;
use chat_label_printer::placement::{CanvasLimits, Data};

fn limits() -> CanvasLimits {
    CanvasLimits { width: 500, height: 500, max_size: 100 }
}

fn placement(text: &str, x: u32, y: u32, size: u32) -> Option<Data> {
    Some(Data { text: text.to_string(), x, y, size })
}

#[test]
fn test_parsing() {
    let test_cases = [
        "hello world 20,20,100",
        "test 30,40,20",
        "hi 50,60,10",
        "example 70,80,200",
        "another test 100,150",
        "missing size number",
        "ayo what 10,10,9",
        "TT 10,10",
        "omg 20,20",
    ];

    for &test_case in &test_cases {
        match parse_string(test_case, &limits()) {
            Some(data) => println!(
                "Parsed Data - Text: '{}', X: {}, Y: {}, Size: {}",
                data.text, data.x, data.y, data.size
            ),
            None => println!("Failed to parse: '{}'", test_case),
        }
    }
}

#[test]
fn parses_label_and_three_numbers() {
    assert_eq!(parse_string("hello world 20,20,100", &limits()), placement("hello world", 20, 20, 100));
    assert_eq!(parse_string("test 30,40,20", &limits()), placement("test", 30, 40, 20));
    assert_eq!(parse_string("ayo what 10,10,9", &limits()), placement("ayo what", 10, 10, 9));
}

#[test]
fn missing_size_defaults_to_five() {
    assert_eq!(parse_string("another test 100,150", &limits()), placement("another test", 100, 150, 5));
    assert_eq!(parse_string("TT 10,10", &limits()), placement("TT", 10, 10, 5));
}

#[test]
fn numbers_are_cut_down_to_the_limits() {
    assert_eq!(parse_string("example 70,80,200", &limits()), placement("example", 70, 80, 100));
    assert_eq!(parse_string("far 9000,501,1", &limits()), placement("far", 500, 500, 1));
}

#[test]
fn lines_without_numbers_give_nothing() {
    assert_eq!(parse_string("missing size number", &limits()), None);
    assert_eq!(parse_string("nospace", &limits()), None);
    assert_eq!(parse_string("one 5", &limits()), None);
    assert_eq!(parse_string("neg -1,2", &limits()), None);
    assert_eq!(parse_string("big 4294967296,2", &limits()), None);
    assert_eq!(parse_string("", &limits()), None);
}

#[test]
fn plus_sign_and_extra_fields_are_accepted() {
    assert_eq!(parse_string("a +1,+2,+3", &limits()), placement("a", 1, 2, 3));
    assert_eq!(parse_string("a 1,2,3,junk", &limits()), placement("a", 1, 2, 3));
    assert_eq!(parse_string("max 4294967295,0", &limits()), placement("max", 500, 0, 5));
}

#[test]
fn trailing_space_leaves_no_numbers() {
    assert_eq!(parse_string("logo 10,10,2 ", &limits()), None);
}

#[test]
fn logo_line_falls_back_to_local_parser() {
    assert_eq!(parse_string("logo 10,10,2", &limits()), placement("logo", 10, 10, 2));
}
