use csvmd::scanner::ColumnScanner;
use csvmd::{
    csv_to_markdown, csv_to_markdown_streaming, csv_to_markdown_streaming_chunked,
    csv_to_markdown_streaming_seekable, Config,
};

/// A small generator of numbers that gives the same run each time.
struct Numbers(u64);

impl Numbers {
    fn next(&mut self, below: usize) -> usize {
        self.0 = self
            .0
            .wrapping_mul(6364136223846793005)
            .wrapping_add(1442695040888963407);
        ((self.0 >> 33) as usize) % below
    }
}

fn generate(numbers: &mut Numbers, tokens: &[&[u8]], max_tokens: usize) -> Vec<u8> {
    let count = numbers.next(max_tokens + 1);
    let mut input = Vec::new();
    for _ in 0..count {
        input.extend_from_slice(tokens[numbers.next(tokens.len())]);
    }
    input
}

fn widest_line(table: &str) -> usize {
    table
        .lines()
        .map(|line| line.matches(" |").count())
        .max()
        .unwrap_or(0)
}

fn check_agreement(input: &[u8], config: Config, chunk_size: usize) {
    let expected = csv_to_markdown(input, config);
    let mut buffered = Vec::new();
    let from_buffer = csv_to_markdown_streaming(input, &mut buffered, config);
    let mut seekable = Vec::new();
    let from_seekable = csv_to_markdown_streaming_seekable(input, &mut seekable, config);
    let mut chunked = Vec::new();
    let from_chunks = csv_to_markdown_streaming_chunked(input, &mut chunked, config, chunk_size);
    match expected {
        Ok(table) => {
            assert!(from_buffer.is_ok() && from_seekable.is_ok() && from_chunks.is_ok());
            assert_eq!(buffered, table.as_bytes(), "input {:?}", input);
            assert_eq!(seekable, table.as_bytes(), "input {:?}", input);
            assert_eq!(chunked, table.as_bytes(), "input {:?}", input);
        }
        Err(error) => {
            let text = error.describe();
            assert_eq!(from_buffer.unwrap_err().describe(), text);
            assert_eq!(from_seekable.unwrap_err().describe(), text);
            assert_eq!(from_chunks.unwrap_err().describe(), text);
            assert!(buffered.is_empty());
            assert!(seekable.is_empty());
        }
    }
}

#[test]
fn conversions_agree_on_generated_inputs() {
    let tokens: [&[u8]; 9] = [
        b"a",
        b",",
        b"\"",
        b"\n",
        b"\r",
        b"\xef\xbb\xbf",
        b" ",
        b";",
        b"|",
    ];
    let mut numbers = Numbers(2024);
    for round in 0..20000 {
        let input = generate(&mut numbers, &tokens, 12);
        let delimiter = [b',', b';', b','][round % 3];
        let config = Config {
            delimiter,
            has_headers: round % 2 == 0,
            ..Config::default()
        };
        check_agreement(&input, config, 1 + numbers.next(5));
    }
}

#[test]
fn conversions_agree_with_unusual_delimiters() {
    let tokens: [&[u8]; 6] = [b"a", b",", b"\"", b"\n", b"\r", b"b"];
    let mut numbers = Numbers(7);
    for round in 0..12000 {
        let input = generate(&mut numbers, &tokens, 10);
        let delimiter = [b'"', b'\n', b'\r', b'a'][round % 4];
        let config = Config {
            delimiter,
            ..Config::default()
        };
        check_agreement(&input, config, 1 + numbers.next(4));
    }
}

#[test]
fn scanner_finds_the_width_of_generated_tables() {
    let tokens: [&[u8]; 8] = [
        b"x",
        b",",
        b"\"",
        b"\n",
        b"\r\n",
        b"\xef\xbb\xbf",
        "é".as_bytes(),
        b"\"\"",
    ];
    let mut numbers = Numbers(99);
    let config = Config {
        has_headers: false,
        ..Config::default()
    };
    for _ in 0..20000 {
        let input = generate(&mut numbers, &tokens, 14);
        let table = csv_to_markdown(&input, config).unwrap();
        let mut scanner = ColumnScanner::new(b',');
        scanner.feed(&input);
        assert_eq!(
            scanner.estimated_columns(),
            widest_line(&table),
            "input {:?}",
            input
        );
    }
}

#[test]
fn strict_conversions_agree_on_generated_inputs() {
    let tokens: [&[u8]; 5] = [b"a", b",", b"\"", b"\n", b"b"];
    let mut numbers = Numbers(31);
    let config = Config {
        flexible: false,
        ..Config::default()
    };
    for _ in 0..10000 {
        let input = generate(&mut numbers, &tokens, 10);
        let expected = csv_to_markdown(&input, config);
        let mut buffered = Vec::new();
        let from_buffer = csv_to_markdown_streaming(&input, &mut buffered, config);
        let mut seekable = Vec::new();
        let from_seekable = csv_to_markdown_streaming_seekable(&input, &mut seekable, config);
        match expected {
            Ok(table) => {
                assert!(from_buffer.is_ok() && from_seekable.is_ok());
                assert_eq!(buffered, table.as_bytes());
                assert_eq!(seekable, table.as_bytes());
            }
            Err(error) => {
                assert_eq!(from_buffer.unwrap_err().describe(), error.describe());
                assert_eq!(from_seekable.unwrap_err().describe(), error.describe());
                assert!(buffered.is_empty() && seekable.is_empty());
            }
        }
    }
}
