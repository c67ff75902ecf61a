use csvmd::render::{
    write_header_separator, write_header_separator_to_writer, write_table_row,
    write_table_row_to_writer,
};
use csvmd::size::estimate_output_size;
use csvmd::table::{escape_record, render_table, widen, write_record_to_writer, RowWriter};
use csvmd::{Config, HeaderAlignment};

fn strings(fields: &[&str]) -> Vec<String> {
    fields.iter().map(|f| f.to_string()).collect()
}

#[test]
fn row_of_exact_width() {
    let mut output = String::new();
    write_table_row(&mut output, &strings(&["Name", "Age"]), 2);
    assert_eq!(output, "| Name | Age |\n");
}

#[test]
fn row_is_padded_with_empty_cells() {
    let mut output = String::new();
    write_table_row(&mut output, &strings(&["X", "Y"]), 4);
    assert_eq!(output, "| X | Y |  |  |\n");
}

#[test]
fn row_of_width_zero_is_a_single_pipe() {
    let mut output = String::new();
    write_table_row(&mut output, &strings(&[]), 0);
    assert_eq!(output, "|\n");
}

#[test]
fn row_is_appended_to_what_is_there() {
    let mut output = String::from("before\n");
    write_table_row(&mut output, &strings(&["a"]), 1);
    assert_eq!(output, "before\n| a |\n");
}

#[test]
fn row_never_has_more_cells_than_the_width() {
    let mut output = String::new();
    write_table_row(&mut output, &strings(&["a", "b", "c"]), 2);
    assert_eq!(output, "| a | b |\n");
}

#[test]
fn row_fields_are_written_as_they_are() {
    let mut output = String::new();
    write_table_row(&mut output, &strings(&["a|b", ""]), 2);
    assert_eq!(output, "| a|b |  |\n");
}

#[test]
fn row_to_writer_matches_row_to_string() {
    let rows = [
        strings(&["Name", "Age"]),
        strings(&["★", "naïve", "日本語"]),
        strings(&[]),
        strings(&["", "", ""]),
    ];
    for row in rows.iter() {
        for width in 0..5 {
            let mut text = String::new();
            write_table_row(&mut text, row, width);
            let mut bytes = Vec::new();
            write_table_row_to_writer(&mut bytes, row, width);
            assert_eq!(bytes, text.as_bytes());
        }
    }
}

#[test]
fn row_to_writer_appends() {
    let mut bytes = b"x".to_vec();
    write_table_row_to_writer(&mut bytes, &strings(&["é"]), 2);
    assert_eq!(bytes, "x| é |  |\n".as_bytes());
}

#[test]
fn separator_for_each_alignment() {
    let mut left = String::new();
    write_header_separator(&mut left, 2, HeaderAlignment::Left);
    assert_eq!(left, "| --- | --- |\n");
    let mut center = String::new();
    write_header_separator(&mut center, 2, HeaderAlignment::Center);
    assert_eq!(center, "| :---: | :---: |\n");
    let mut right = String::new();
    write_header_separator(&mut right, 3, HeaderAlignment::Right);
    assert_eq!(right, "| ---: | ---: | ---: |\n");
}

#[test]
fn separator_of_width_zero() {
    let mut output = String::new();
    write_header_separator(&mut output, 0, HeaderAlignment::Center);
    assert_eq!(output, "|\n");
}

#[test]
fn separator_to_writer_matches_separator_to_string() {
    for alignment in [
        HeaderAlignment::Left,
        HeaderAlignment::Center,
        HeaderAlignment::Right,
    ] {
        for width in 0..4 {
            let mut text = String::from("t");
            write_header_separator(&mut text, width, alignment);
            let mut bytes = b"t".to_vec();
            write_header_separator_to_writer(&mut bytes, width, alignment);
            assert_eq!(bytes, text.as_bytes());
        }
    }
}

#[test]
fn escape_record_escapes_each_field() {
    let cells = escape_record(&strings(&["a|b", "c\nd", "e\r", "plain"]));
    assert_eq!(cells, strings(&["a\\|b", "c<br>d", "e", "plain"]));
    assert_eq!(escape_record(&strings(&[])), strings(&[]));
}

#[test]
fn record_block_for_first_record_with_headers() {
    let mut output = Vec::new();
    let config = Config::default();
    write_record_to_writer(&mut output, &strings(&["A|1", "B"]), 3, true, &config);
    assert_eq!(output, b"| A\\|1 | B |  |\n| --- | --- | --- |\n");
}

#[test]
fn record_block_for_later_record_or_without_headers() {
    let config = Config::default();
    let mut later = Vec::new();
    write_record_to_writer(&mut later, &strings(&["x", "y"]), 2, false, &config);
    assert_eq!(later, b"| x | y |\n");

    let bare = Config {
        has_headers: false,
        ..Config::default()
    };
    let mut first = Vec::new();
    write_record_to_writer(&mut first, &strings(&["x", "y"]), 2, true, &bare);
    assert_eq!(first, b"| x | y |\n");
}

#[test]
fn widen_keeps_the_greater() {
    assert_eq!(widen(0, 0), 0);
    assert_eq!(widen(3, 2), 3);
    assert_eq!(widen(2, 3), 3);
    assert_eq!(widen(4, 4), 4);
}

#[test]
fn size_estimate_follows_its_formula() {
    let records = vec![strings(&["ab", "c"]), strings(&["d"])];
    // four bytes over two rows: (2 + 3) * 2 * 2 + 2 * 6 + 100
    assert_eq!(estimate_output_size(&records, 2), 132);
    // multi-byte text counts by its bytes: "é" has two, "日" has three
    let wide = vec![strings(&["é", "日"])];
    assert_eq!(estimate_output_size(&wide, 2), (5 + 3) * 2 + 12 + 100);
}

#[test]
fn size_estimate_without_rows_or_columns() {
    let none: Vec<Vec<String>> = Vec::new();
    assert_eq!(estimate_output_size(&none, 0), 100);
    assert_eq!(estimate_output_size(&none, 5), 130);
    let records = vec![strings(&["abc"])];
    assert_eq!(estimate_output_size(&records, 0), 100);
}

#[test]
fn size_estimate_stops_at_the_greatest_value() {
    let records = vec![strings(&["a"]), strings(&["b"])];
    assert_eq!(estimate_output_size(&records, usize::MAX), usize::MAX);
    assert_eq!(estimate_output_size(&records, usize::MAX / 6), usize::MAX);
}

#[test]
fn default_config() {
    let config = Config::default();
    assert!(config.has_headers);
    assert!(config.flexible);
    assert_eq!(config.delimiter, b',');
    assert_eq!(config.header_alignment, HeaderAlignment::Left);
}

fn table_of(records: &[&[&str]], config: &Config) -> String {
    let mut width = 0;
    let mut rows = Vec::new();
    for record in records {
        let row = escape_record(&strings(record));
        width = widen(width, row.len());
        rows.push(row);
    }
    render_table(&rows, width, config)
}

#[test]
fn table_of_records_with_headers() {
    let records: [&[&str]; 3] = [&["Name", "Age"], &["John", "25"], &["Jane", "30"]];
    assert_eq!(
        table_of(&records, &Config::default()),
        "| Name | Age |\n| --- | --- |\n| John | 25 |\n| Jane | 30 |\n"
    );
}

#[test]
fn table_of_ragged_records() {
    let records: [&[&str]; 3] = [&["A", "B", "C"], &["X", "Y"], &["P", "Q", "R", "S"]];
    assert_eq!(
        table_of(&records, &Config::default()),
        "| A | B | C |  |\n| --- | --- | --- | --- |\n| X | Y |  |  |\n| P | Q | R | S |\n"
    );
}

#[test]
fn table_of_record_with_pipe_and_newline() {
    let records: [&[&str]; 1] = [&["Has | pipe\nand line"]];
    assert_eq!(
        table_of(&records, &Config::default()),
        "| Has \\| pipe<br>and line |\n| --- |\n"
    );
}

#[test]
fn table_of_no_records() {
    let records: [&[&str]; 0] = [];
    assert_eq!(table_of(&records, &Config::default()), "");
    let bare = Config {
        has_headers: false,
        ..Config::default()
    };
    assert_eq!(table_of(&records, &bare), "");
}

#[test]
fn table_without_headers_has_rows_only() {
    let records: [&[&str]; 2] = [&["a", "b"], &["c"]];
    let bare = Config {
        has_headers: false,
        header_alignment: HeaderAlignment::Center,
        ..Config::default()
    };
    assert_eq!(table_of(&records, &bare), "| a | b |\n| c |  |\n");
}

#[test]
fn render_table_writes_cells_as_they_are() {
    let rows = vec![strings(&["a|b"]), strings(&["c"])];
    let config = Config {
        header_alignment: HeaderAlignment::Right,
        ..Config::default()
    };
    assert_eq!(render_table(&rows, 2, &config), "| a|b |  |\n| ---: | ---: |\n| c |  |\n");
}

#[test]
fn row_writer_puts_the_separator_after_the_first_record_only() {
    let config = Config::default();
    let mut output = Vec::new();
    let mut writer = RowWriter::new(2);
    assert_eq!(writer.width, 2);
    assert!(writer.at_first_row);
    writer.write_record(&mut output, &strings(&["h1", "h2"]), &config);
    assert!(!writer.at_first_row);
    writer.write_record(&mut output, &strings(&["a|b"]), &config);
    writer.write_record(&mut output, &strings(&["c", "d"]), &config);
    assert_eq!(writer.width, 2);
    assert_eq!(
        String::from_utf8(output).unwrap(),
        "| h1 | h2 |\n| --- | --- |\n| a\\|b |  |\n| c | d |\n"
    );
}

#[test]
fn row_writer_without_headers() {
    let config = Config {
        has_headers: false,
        ..Config::default()
    };
    let mut output = Vec::new();
    let mut writer = RowWriter::new(1);
    writer.write_record(&mut output, &strings(&["a"]), &config);
    writer.write_record(&mut output, &strings(&["b"]), &config);
    assert!(!writer.at_first_row);
    assert_eq!(output, b"| a |\n| b |\n");
}
