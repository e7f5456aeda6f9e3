use prettytable::align::{fill_counts, print_align, Alignment};
use prettytable::html::HtmlEscape;
use prettytable::width::{checked_display_width, display_width, hidden_columns};
use prettytable::writer::StringWriter;
use std::io::Write;

#[test]
fn string_writer() {
    let mut out = StringWriter::new();
    out.write_all(b"foo").unwrap();
    out.write_all(b" ").unwrap();
    out.write_all(b"").unwrap();
    out.write_all(b"bar").unwrap();
    assert_eq!(out.as_string(), "foo bar");
}

#[test]
fn display_width_hyperlinks() {
    let just_text = "link text";
    let link = "\x1B]8;;https://example.com\x1B\\link text\x1B]8;;\x1B\\";
    assert_eq!(display_width(link), display_width(just_text));
}

#[test]
fn fill_align() {
    let mut out = StringWriter::new();
    print_align(&mut out, Alignment::RIGHT, "foo", '*', 10, false).unwrap();
    assert_eq!(out.as_string(), "*******foo");

    let mut out = StringWriter::new();
    print_align(&mut out, Alignment::LEFT, "foo", '*', 10, false).unwrap();
    assert_eq!(out.as_string(), "foo*******");

    let mut out = StringWriter::new();
    print_align(&mut out, Alignment::CENTER, "foo", '*', 10, false).unwrap();
    assert_eq!(out.as_string(), "***foo****");

    let mut out = StringWriter::new();
    print_align(&mut out, Alignment::CENTER, "foo", '*', 1, false).unwrap();
    assert_eq!(out.as_string(), "foo");
}

#[test]
fn skip_right_fill() {
    let mut out = StringWriter::new();
    print_align(&mut out, Alignment::RIGHT, "foo", '*', 10, true).unwrap();
    assert_eq!(out.as_string(), "*******foo");

    let mut out = StringWriter::new();
    print_align(&mut out, Alignment::LEFT, "foo", '*', 10, true).unwrap();
    assert_eq!(out.as_string(), "foo");

    let mut out = StringWriter::new();
    print_align(&mut out, Alignment::CENTER, "foo", '*', 10, true).unwrap();
    assert_eq!(out.as_string(), "***foo");

    let mut out = StringWriter::new();
    print_align(&mut out, Alignment::CENTER, "foo", '*', 1, false).unwrap();
    assert_eq!(out.as_string(), "foo");
}

#[test]
fn utf8_error() {
    let mut out = StringWriter::new();
    let res = out.write_all(&[0, 255]);
    assert!(res.is_err());
}

#[test]
fn write_keeps_earlier_text_on_error() {
    let mut out = StringWriter::new();
    out.write_all("héllo".as_bytes()).unwrap();
    assert!(out.write(&[0xC3]).is_err());
    assert_eq!(out.write(b"!").unwrap(), 1);
    assert!(out.flush().is_ok());
    assert_eq!(out.as_string(), "héllo!");
}

#[test]
fn plain_text_width_is_table_width() {
    assert_eq!(display_width("hello world"), 11);
    assert_eq!(display_width(""), 0);
    assert_eq!(hidden_columns("plain ascii text"), 0);
}

#[test]
fn wide_characters_take_two_columns() {
    assert_eq!(display_width("日本"), 4);
    assert_eq!(display_width("a\u{301}"), 1);
}

#[test]
fn csi_colour_code_columns() {
    // The byte after `m` is taken as part of the sequence.
    assert_eq!(hidden_columns("\x1b[31mHello\x1b[0m"), 6);
    assert_eq!(display_width("\x1b[31mHello\x1b[0m"), 8);
}

#[test]
fn hyperlink_label_width() {
    let link = "\x1b]8;;https://example.com\x1b\\label\x1b]8;;\x1b\\";
    assert_eq!(display_width(link), 5);
    assert_eq!(hidden_columns(link), 33);
}

#[test]
fn truncated_sequences_do_not_fail() {
    assert_eq!(display_width("abc\x1b[31"), 5);
    assert_eq!(checked_display_width("abc\x1b[31"), Some(5));
    assert_eq!(hidden_columns("\x1b]8;;ab"), 7);
    assert_eq!(display_width("\x1b]8;;ab"), 0);
    assert_eq!(display_width("abc\x1b"), 4);
    assert!(hidden_columns("\x1b]8;;ab") <= "\x1b]8;;ab".chars().count());
}

#[test]
fn inconsistent_width_is_reported() {
    let text = "\x1b]\u{1F468}\u{200D}\u{1F469}\u{200D}\u{1F467}";
    assert_eq!(checked_display_width(text), None);
    let mut out = StringWriter::new();
    out.write_all(b"x").unwrap();
    assert!(print_align(&mut out, Alignment::LEFT, text, ' ', 10, false).is_err());
    assert_eq!(out.as_string(), "x");
}

#[test]
fn narrow_field_leaves_text_unpadded() {
    for align in [Alignment::LEFT, Alignment::CENTER, Alignment::RIGHT] {
        let mut out = StringWriter::new();
        print_align(&mut out, align, "foobar", '-', 6, false).unwrap();
        assert_eq!(out.as_string(), "foobar");
        let mut out = StringWriter::new();
        print_align(&mut out, align, "foobar", '-', 0, false).unwrap();
        assert_eq!(out.as_string(), "foobar");
    }
}

#[test]
fn align_round_trip() {
    let mut out = StringWriter::new();
    print_align(&mut out, Alignment::LEFT, "a*b", '*', 9, false).unwrap();
    assert_eq!(out.as_string().trim_end_matches('*'), "a*b");
    let mut out = StringWriter::new();
    print_align(&mut out, Alignment::RIGHT, "a*b", '*', 9, false).unwrap();
    assert_eq!(out.as_string().trim_start_matches('*'), "a*b");
}

#[test]
fn coloured_text_aligned_by_display_width() {
    let mut out = StringWriter::new();
    print_align(&mut out, Alignment::RIGHT, "\x1b[1mab", ' ', 5, false).unwrap();
    // "\x1b[1mab": width 6 by the table, 3 hidden (`1`, `m`, `a`).
    assert_eq!(out.as_string(), "  \x1b[1mab");
}

#[test]
fn fill_counts_split() {
    assert_eq!(fill_counts(Alignment::CENTER, 3, 10, false), (3, 4));
    assert_eq!(fill_counts(Alignment::CENTER, 3, 10, true), (3, 0));
    assert_eq!(fill_counts(Alignment::LEFT, 3, 10, false), (0, 7));
    assert_eq!(fill_counts(Alignment::RIGHT, 3, 10, true), (7, 0));
    assert_eq!(fill_counts(Alignment::RIGHT, 12, 10, false), (0, 0));
}

#[test]
fn html_escape_replaces_entities() {
    let s = HtmlEscape("<a href='x'>&\"b\"</a>").to_string();
    assert_eq!(s, "&lt;a href=&#39;x&#39;&gt;&amp;&quot;b&quot;&lt;/a&gt;");
    assert_eq!(HtmlEscape("plain").to_string(), "plain");
    assert_eq!(HtmlEscape("").to_string(), "");
}

#[test]
fn escape_after_escape_stays_in_escape() {
    assert_eq!(hidden_columns("\x1b\x1b[31mX"), 4);
    assert_eq!(hidden_columns("\x1b\x1b]8;;u\x1b\\"), hidden_columns("\x1b]8;;u\x1b\\"));
    assert_eq!(hidden_columns("\x1b\x1b]"), 2);
}

#[test]
fn printable_ascii_width_is_length() {
    let text = "Hello, world! ~{}[]";
    assert_eq!(display_width(text), text.len());
    assert_eq!(checked_display_width(text), Some(text.len()));
}
