use kyuri::template::Template;
use kyuri::template::TemplatePart;

fn show(template: &str) -> Vec<String> {
    Template::new(template)
        .parts
        .iter()
        .map(|part| match part {
            TemplatePart::Text(text) => format!("text:{}", text),
            TemplatePart::Bar(width) => format!("bar:{}", width),
            other => format!("{:?}", other),
        })
        .collect()
}

#[test]
fn empty_template_has_no_parts() {
    assert!(show("").is_empty());
}

#[test]
fn plain_text_is_one_part() {
    assert_eq!(show("hello world"), vec!["text:hello world"]);
}

#[test]
fn every_tag_has_its_field() {
    assert_eq!(show("{msg}"), vec!["Message"]);
    assert_eq!(show("{message}"), vec!["Message"]);
    assert_eq!(show("{elapsed}"), vec!["Elapsed"]);
    assert_eq!(show("{elapsed_precise}"), vec!["Elapsed"]);
    assert_eq!(show("{bytes}"), vec!["Bytes"]);
    assert_eq!(show("{pos}"), vec!["Pos"]);
    assert_eq!(show("{total_bytes}"), vec!["TotalBytes"]);
    assert_eq!(show("{total}"), vec!["Total"]);
    assert_eq!(show("{len}"), vec!["Total"]);
    assert_eq!(show("{bytes_per_sec}"), vec!["BytesPerSecond"]);
    assert_eq!(show("{bytes_per_second}"), vec!["BytesPerSecond"]);
    assert_eq!(show("{eta}"), vec!["Eta"]);
    assert_eq!(show("{state_emoji}"), vec!["StateEmoji"]);
}

#[test]
fn tags_are_case_sensitive() {
    assert_eq!(show("{MSG}"), vec!["text:{MSG}"]);
    assert_eq!(show("{Pos}"), vec!["text:{Pos}"]);
    assert_eq!(show("{ msg }"), vec!["text:{ msg }"]);
}

#[test]
fn bar_takes_a_width() {
    assert_eq!(show("{bar}"), vec!["bar:20"]);
    assert_eq!(show("{bar15}"), vec!["bar:15"]);
    assert_eq!(show("{bar0}"), vec!["bar:0"]);
    assert_eq!(show("{bar007}"), vec!["bar:7"]);
    assert_eq!(
        show("{bar18446744073709551615}"),
        vec!["bar:18446744073709551615"]
    );
}

#[test]
fn bar_with_anything_but_a_width_that_fits_is_text() {
    assert_eq!(show("{barx}"), vec!["text:{barx}"]);
    assert_eq!(show("{bar+5}"), vec!["text:{bar+5}"]);
    assert_eq!(show("{bar-5}"), vec!["text:{bar-5}"]);
    assert_eq!(show("{bar 5}"), vec!["text:{bar 5}"]);
    assert_eq!(show("{bar5x}"), vec!["text:{bar5x}"]);
    assert_eq!(
        show("{bar18446744073709551616}"),
        vec!["text:{bar18446744073709551616}"]
    );
    assert_eq!(
        show("{bar99999999999999999999999999}"),
        vec!["text:{bar99999999999999999999999999}"]
    );
}

#[test]
fn doubled_braces_are_single_braces() {
    assert_eq!(show("{{"), vec!["text:{"]);
    assert_eq!(show("}}"), vec!["text:}"]);
    assert_eq!(show("a{{b}}c"), vec!["text:a{b}c"]);
    assert_eq!(show("{{msg}}"), vec!["text:{msg}"]);
    assert_eq!(show("{{{msg}}}"), vec!["text:{", "Message", "text:}"]);
}

#[test]
fn a_lone_closing_brace_is_text() {
    assert_eq!(show("}"), vec!["text:}"]);
    assert_eq!(show("a}b"), vec!["text:a}b"]);
}

#[test]
fn unknown_tags_are_text_with_their_braces() {
    assert_eq!(show("{unknown}"), vec!["text:{unknown}"]);
    assert_eq!(show("{}"), vec!["text:{}"]);
    assert_eq!(
        show("a{zz}b"),
        vec!["text:a", "text:{zz}", "text:b"]
    );
}

#[test]
fn an_open_tag_runs_to_the_next_closing_brace() {
    assert_eq!(show("{a{b}"), vec!["text:{a{b}"]);
    assert_eq!(show("{msg{msg}"), vec!["text:{msg{msg}"]);
}

#[test]
fn an_unterminated_tag_is_text() {
    assert_eq!(show("{"), vec!["text:{"]);
    assert_eq!(show("{msg"), vec!["text:{msg"]);
    assert_eq!(show("abc{def"), vec!["text:abc", "text:{def"]);
    assert_eq!(show("{msg}{pos"), vec!["Message", "text:{pos"]);
}

#[test]
fn line_breaks_split_text() {
    assert_eq!(show("a\nb"), vec!["text:a", "Newline", "text:b"]);
    assert_eq!(show("\n"), vec!["text:", "Newline", "text:"]);
    assert_eq!(
        show("a\n\nb"),
        vec!["text:a", "Newline", "text:", "Newline", "text:b"]
    );
    assert_eq!(
        show("{msg}\n{pos}"),
        vec!["Message", "text:", "Newline", "text:", "Pos"]
    );
}

#[test]
fn line_breaks_split_unknown_tags() {
    assert_eq!(
        show("a{b\nc}d"),
        vec!["text:a", "text:{b", "Newline", "text:c}", "text:d"]
    );
    assert_eq!(show("x{y\nz"), vec!["text:x", "text:{y", "Newline", "text:z"]);
}

#[test]
fn the_usual_download_template() {
    assert_eq!(
        show("{msg}\n[{elapsed}] {bytes}/{total_bytes} ({bytes_per_sec}, {eta})"),
        vec![
            "Message",
            "text:",
            "Newline",
            "text:[",
            "Elapsed",
            "text:] ",
            "Bytes",
            "text:/",
            "TotalBytes",
            "text: (",
            "BytesPerSecond",
            "text:, ",
            "Eta",
            "text:)",
        ]
    );
}

#[test]
fn text_beyond_ascii_is_kept() {
    assert_eq!(show("進捗 {pos} ✓"), vec!["text:進捗 ", "Pos", "text: ✓"]);
}
