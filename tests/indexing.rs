use qotd::{category_of_path, index_content, rot13, rot13_byte, FileEncoding, QuoteCategory, QuoteFile};

fn quote_text(content: &[u8], offset: u64, length: usize) -> Vec<u8> {
    let start = offset as usize;
    content[start..start + length].to_vec()
}

#[test]
fn index_two_quotes_between_delimiters() {
    let content = b"%\nQuote one.\n%\nQuote two.\n%\n";
    let (spans, encoding) = index_content(content);
    assert_eq!(spans.len(), 2);
    assert_eq!(encoding, FileEncoding::Plain);
    assert_eq!(quote_text(content, spans[0].offset, spans[0].length), b"Quote one.\n".to_vec());
    assert_eq!(quote_text(content, spans[1].offset, spans[1].length), b"Quote two.\n".to_vec());
    for span in &spans {
        let text = quote_text(content, span.offset, span.length);
        for line in text.split(|b| *b == b'\n') {
            assert!(!line.starts_with(b"%"));
        }
    }
}

#[test]
fn index_drops_text_outside_delimiters() {
    let content = b"Quote zero.\n%\nQuote one.\n";
    let (spans, _) = index_content(content);
    for span in &spans {
        let text = quote_text(content, span.offset, span.length);
        assert_ne!(text, b"Quote zero.\n".to_vec());
    }
    assert!(spans.is_empty());
}

#[test]
fn index_skips_empty_quotes() {
    let content = b"%\n%\nOnly.\n%\n";
    let (spans, _) = index_content(content);
    assert_eq!(spans.len(), 1);
    assert_eq!(spans[0].offset, 4);
    assert_eq!(spans[0].length, 6);
}

#[test]
fn index_empty_file() {
    let (spans, encoding) = index_content(b"");
    assert!(spans.is_empty());
    assert_eq!(encoding, FileEncoding::Plain);
}

#[test]
fn index_delimiter_line_with_text() {
    let content = b"% first\nA\nB\n%% second\nC";
    let (spans, _) = index_content(content);
    assert_eq!(spans.len(), 1);
    assert_eq!(quote_text(content, spans[0].offset, spans[0].length), b"A\nB\n".to_vec());
}

#[test]
fn index_last_line_without_newline_is_a_delimiter() {
    let content = b"%\nQuote.\n%";
    let (spans, _) = index_content(content);
    assert_eq!(spans.len(), 1);
    assert_eq!(quote_text(content, spans[0].offset, spans[0].length), b"Quote.\n".to_vec());
}

#[test]
fn encoding_rot13_marker_first() {
    let content = b"$SerrOFQ$\n%\nHello\n%\n$FreeBSD$\n";
    let (_, encoding) = index_content(content);
    assert_eq!(encoding, FileEncoding::Rot13);
}

#[test]
fn encoding_plain_marker_first() {
    let content = b"x $FreeBSD$ y\n%\nHello\n%\n$SerrOFQ$\n";
    let (_, encoding) = index_content(content);
    assert_eq!(encoding, FileEncoding::Plain);
}

#[test]
fn encoding_without_marker_is_plain() {
    let content = b"%\n$Serr\nOFQ$\n%\n";
    let (_, encoding) = index_content(content);
    assert_eq!(encoding, FileEncoding::Plain);
}

#[test]
fn encoding_both_markers_on_one_line() {
    let content = b"$FreeBSD$ $SerrOFQ$\n";
    let (_, encoding) = index_content(content);
    assert_eq!(encoding, FileEncoding::Rot13);
}

#[test]
fn rot13_twice_is_identity() {
    let input: Vec<u8> = (0u8..=255).collect();
    let mut text = input.clone();
    rot13(&mut text);
    assert_ne!(text, input);
    rot13(&mut text);
    assert_eq!(text, input);
}

#[test]
fn rot13_known_values() {
    let mut text = b"Hello, World! 123 AMNZ amnz".to_vec();
    rot13(&mut text);
    assert_eq!(text, b"Uryyb, Jbeyq! 123 NZAM nzam".to_vec());
    assert_eq!(rot13_byte(b'%'), b'%');
    assert_eq!(rot13_byte(b'@'), b'@');
    assert_eq!(rot13_byte(b'['), b'[');
    assert_eq!(rot13_byte(b'a'), b'n');
}

#[test]
fn category_from_path() {
    assert_eq!(category_of_path(Some("a")), QuoteCategory::Decorous);
    assert_eq!(category_of_path(Some("a-o")), QuoteCategory::Offensive);
    assert_eq!(category_of_path(Some("quotes/fortunes-o")), QuoteCategory::Offensive);
    assert_eq!(category_of_path(Some("-o")), QuoteCategory::Offensive);
    assert_eq!(category_of_path(Some("o")), QuoteCategory::Decorous);
    assert_eq!(category_of_path(Some("a-O")), QuoteCategory::Decorous);
    assert_eq!(category_of_path(None), QuoteCategory::Offensive);
}

#[test]
fn quote_file_index_collects_all() {
    let file = QuoteFile::index(Some("dir/jokes-o"), b"$SerrOFQ$\n%\nUryyb\n%\n");
    assert_eq!(file.category, QuoteCategory::Offensive);
    assert_eq!(file.encoding, FileEncoding::Rot13);
    assert_eq!(file.quotes.len(), 1);
    assert_eq!(file.quotes[0].offset, 12);
    assert_eq!(file.quotes[0].length, 6);
}
