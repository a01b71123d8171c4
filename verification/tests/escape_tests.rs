use winres::{escape_string, unescape_string};

#[test]
fn string_escaping() {
    assert_eq!(&escape_string(""), "");
    assert_eq!(&escape_string("foo"), "foo");
    assert_eq!(&escape_string(r#""Hello""#), r#"""Hello"""#);
    assert_eq!(
        &escape_string(r"C:\Program Files\Foobar"),
        r"C:\\Program Files\\Foobar"
    );
}

#[test]
fn escape_control_characters() {
    assert_eq!(&escape_string("a\nb\tc\rd"), "a\\nb\\tc\\rd");
    assert_eq!(&escape_string("it's"), "it\\'s");
}

#[test]
fn escape_round_trip() {
    let samples = vec![
        String::new(),
        String::from("\""),
        String::from("plain text"),
        String::from("C:\\path\\with\tmixed\nwhitespace\r"),
        String::from("quotes \"inside\" and 'single'"),
        String::from("unicode \u{2764} stays"),
    ];
    for s in samples {
        let escaped = escape_string(&s);
        assert_eq!(unescape_string(&escaped), Some(s));
    }
}

#[test]
fn unescape_rejects_invalid() {
    assert_eq!(unescape_string("\\z"), None);
    assert_eq!(unescape_string("\\"), None);
    assert_eq!(unescape_string("lone \" quote"), None);
    assert_eq!(unescape_string("tail\\"), None);
}

#[test]
fn unescape_plain_text() {
    assert_eq!(unescape_string("no escapes"), Some(String::from("no escapes")));
    assert_eq!(unescape_string("two \"\" quotes"), Some(String::from("two \" quotes")));
}
