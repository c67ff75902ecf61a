use csvmd::escape_markdown_cell;

#[test]
fn test_escape_markdown_cell() {
    assert_eq!(escape_markdown_cell("simple"), "simple");
    assert_eq!(escape_markdown_cell("with|pipe"), "with\\|pipe");
    assert_eq!(escape_markdown_cell("with\nlinebreak"), "with<br>linebreak");
    assert_eq!(escape_markdown_cell("with\r\nwindows"), "with<br>windows");
    assert_eq!(escape_markdown_cell(""), "");
}

#[test]
fn escape_pipe_and_embedded_newline() {
    assert_eq!(
        escape_markdown_cell("Has | pipe\nand line"),
        "Has \\| pipe<br>and line"
    );
}

#[test]
fn escape_passes_other_characters_through() {
    assert_eq!(escape_markdown_cell("★ naïve 日本語 🚀"), "★ naïve 日本語 🚀");
    assert_eq!(escape_markdown_cell("a\\b"), "a\\b");
    assert_eq!(escape_markdown_cell("tab\there"), "tab\there");
    assert_eq!(escape_markdown_cell("<br>"), "<br>");
}

#[test]
fn escape_removes_every_carriage_return() {
    assert_eq!(escape_markdown_cell("\r"), "");
    assert_eq!(escape_markdown_cell("a\rb\r\rc"), "abc");
    assert_eq!(escape_markdown_cell("\r\n\r\n"), "<br><br>");
}

#[test]
fn escape_handles_special_characters_among_multibyte_text() {
    assert_eq!(escape_markdown_cell("é|ü\nñ\r"), "é\\|ü<br>ñ");
    assert_eq!(escape_markdown_cell("|||"), "\\|\\|\\|");
}

#[test]
fn escape_is_not_idempotent() {
    let once = escape_markdown_cell("a|b");
    let twice = escape_markdown_cell(&once);
    assert_eq!(once, "a\\|b");
    assert_eq!(twice, "a\\\\|b");
}

#[test]
fn escape_tells_pipes_from_line_feeds() {
    let inputs = ["a|b", "a\nb", "|\n", "\n|", "||", "\n\n"];
    for (i, left) in inputs.iter().enumerate() {
        for (j, right) in inputs.iter().enumerate() {
            if i != j {
                assert_ne!(escape_markdown_cell(left), escape_markdown_cell(right));
            }
        }
    }
}

#[test]
fn escape_gives_the_same_result_each_time() {
    let field = "x|y\nz\r";
    assert_eq!(escape_markdown_cell(field), escape_markdown_cell(field));
    assert_eq!(escape_markdown_cell(field), "x\\|y<br>z");
}

#[test]
fn escape_tells_a_pipe_from_any_other_character() {
    for other in ["a-b", "a\\b", "a\nb", "a<b", "a b", "a\u{7c9}b"] {
        assert_ne!(escape_markdown_cell("a|b"), escape_markdown_cell(other));
    }
    assert_ne!(escape_markdown_cell("|x"), escape_markdown_cell("\\|"));
}

#[test]
fn line_feed_and_line_break_tag_are_escaped_alike() {
    assert_eq!(escape_markdown_cell("\n"), escape_markdown_cell("<br>"));
    assert_eq!(
        escape_markdown_cell("\n\n\n\n<br>"),
        escape_markdown_cell("<br>\n\n\n\n")
    );
}
