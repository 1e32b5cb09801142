use goodreads_search::{extract_pages_from_url, pages_from_texts, pages_in_text};

#[test]
fn page_count_is_read_from_the_first_word() {
    assert_eq!(pages_in_text("366 pages"), 366);
    assert_eq!(pages_in_text("  \n 46 pages, Paperback"), 46);
    assert_eq!(pages_in_text("+12 pages"), 12);
    assert_eq!(pages_in_text("0"), 0);
}

#[test]
fn text_without_a_numeral_states_no_pages() {
    assert_eq!(pages_in_text(""), 0);
    assert_eq!(pages_in_text("   "), 0);
    assert_eq!(pages_in_text("pages 366"), 0);
    assert_eq!(pages_in_text("366pages"), 0);
    assert_eq!(pages_in_text("-5 pages"), 0);
    assert_eq!(pages_in_text("+ 5"), 0);
    assert_eq!(pages_in_text("1,024 pages"), 0);
    assert_eq!(pages_in_text("３６６ pages"), 0);
}

#[test]
fn page_count_at_the_limit() {
    assert_eq!(pages_in_text("18446744073709551615 pages"), u64::MAX);
    assert_eq!(pages_in_text("18446744073709551616 pages"), 0);
    assert_eq!(pages_in_text("000000000000000000000000000007"), 7);
}

#[test]
fn first_word_reads_as_the_standard_parser_reads_it() {
    let texts = [
        "366 pages", "+7", "++7", "", " ", "12a", "a12", "99999999999999999999", "0012 x",
        "\u{a0}15\u{2003}pages", "١٢ pages", "-0", "+", "4\t5",
    ];
    for text in texts {
        let expected = text.split_whitespace().next().and_then(|w| w.parse::<u64>().ok()).unwrap_or(0);
        assert_eq!(pages_in_text(text), expected, "{:?}", text);
    }
}

#[test]
fn pages_come_from_the_first_element() {
    assert_eq!(pages_from_texts(&Some(vec!["370 pages".to_string(), "12 pages".to_string()])), 370);
    assert_eq!(pages_from_texts(&Some(vec![])), 0);
    assert_eq!(pages_from_texts(&None), 0);
}

#[test]
fn document_with_page_count_field() {
    let html = "<html><body><div><p data-testid=\"pagesFormat\">608 pages, Hardcover</p></div></body></html>";
    assert_eq!(extract_pages_from_url(html.to_string()), 608);
}

#[test]
fn document_with_nested_markup_in_the_field() {
    let html = "<p data-testid=\"pagesFormat\"> <b>3</b>66 pages</p><p data-testid=\"pagesFormat\">1 page</p>";
    assert_eq!(extract_pages_from_url(html.to_string()), 366);
}

#[test]
fn document_without_page_count_field() {
    assert_eq!(extract_pages_from_url(String::new()), 0);
    assert_eq!(extract_pages_from_url("<html><body><p>366 pages</p></body></html>".to_string()), 0);
    assert_eq!(
        extract_pages_from_url("<p data-testid=\"pagesFormat\"></p>".to_string()),
        0
    );
    assert_eq!(
        extract_pages_from_url("<p data-testid=\"pagesFormat\">unknown</p>".to_string()),
        0
    );
}

#[test]
fn document_longer_than_the_parser_takes_states_no_pages() {
    let head = "<p data-testid=\"pagesFormat\">366 pages</p>";
    let mut document = String::from(head);
    document.push_str(&" ".repeat(0x2000_0000 - head.len()));
    assert_eq!(document.len(), 0x2000_0000);
    document.push(' ');
    assert_eq!(extract_pages_from_url(document), 0);
    assert_eq!(extract_pages_from_url(head.to_string()), 366);
}
