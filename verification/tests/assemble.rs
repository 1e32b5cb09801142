use goodreads_search::{
    book_from, enrich, scan, Action, Assembly, Fetched, GoodreadsBook, Row, RowError, SearchError,
    SeriesInfo, Volume,
};

fn row(title: &str, authors: &[&str], url: &str, cover: Option<&str>) -> Row {
    Row {
        raw_title_series_text: title.to_string(),
        author_names: authors.iter().map(|a| a.to_string()).collect(),
        detail_url: url.to_string(),
        cover_url: cover.map(|c| c.to_string()),
    }
}

fn page(pages: &str) -> Fetched {
    Fetched::Page(format!("<html><body><p data-testid=\"pagesFormat\">{}</p></body></html>", pages))
}

fn three_rows() -> Vec<Row> {
    vec![
        row("Neverwhere (London Below, #1)", &["Neil Gaiman"], "https://www.goodreads.com/a", None),
        row("Bedlam", &["Derek Landy"], "https://www.goodreads.com/b", Some("https://i/b.jpg")),
        row("The Colour of Magic (Discworld #1; Rincewind #1)", &["Terry Pratchett"], "https://www.goodreads.com/c", None),
    ]
}

#[test]
fn page_gives_its_count_and_failure_its_error() {
    assert_eq!(enrich(page("370 pages, Paperback")), Ok(370));
    assert_eq!(enrich(page("unknown")), Ok(0));
    assert_eq!(enrich(Fetched::Page(String::new())), Ok(0));
    assert_eq!(enrich(Fetched::Failed), Err(RowError::DetailFetchFailed));
}

#[test]
fn record_is_made_of_row_and_page_count() {
    let book = book_from(&three_rows()[0], 370);
    assert_eq!(book.title(), "Neverwhere");
    assert_eq!(book.authors(), vec!["Neil Gaiman".to_string()]);
    assert_eq!(book.pages(), 370);
    assert_eq!(book.series_info(), Some(vec![SeriesInfo::new("London Below".to_string(), Volume::whole(1))]));
    assert_eq!(book.url(), "https://www.goodreads.com/a");
    assert_eq!(book.cover_image(), None);
    let book = book_from(&three_rows()[1], 608);
    assert_eq!(book.title(), "Bedlam");
    assert_eq!(book.series_info(), None);
    assert_eq!(book.cover_image(), Some("https://i/b.jpg".to_string()));
}

#[test]
fn fetches_start_in_row_order_and_within_the_limit() {
    let mut assembly = Assembly::new(three_rows(), 2);
    assert_eq!(assembly.len(), 3);
    assert!(!assembly.is_complete());
    assert_eq!(
        assembly.next_action(),
        Action::Fetch { index: 0, url: "https://www.goodreads.com/a".to_string() }
    );
    assert_eq!(
        assembly.next_action(),
        Action::Fetch { index: 1, url: "https://www.goodreads.com/b".to_string() }
    );
    assert_eq!(assembly.next_action(), Action::Wait);
    assert_eq!(assembly.next_action(), Action::Wait);
    assert!(assembly.record(1, page("608 pages")));
    assert_eq!(
        assembly.next_action(),
        Action::Fetch { index: 2, url: "https://www.goodreads.com/c".to_string() }
    );
    assert_eq!(assembly.next_action(), Action::Wait);
    assert!(assembly.record(2, Fetched::Failed));
    assert_eq!(assembly.next_action(), Action::Wait);
    assert!(!assembly.is_complete());
    assert!(assembly.record(0, page("370 pages")));
    assert_eq!(assembly.next_action(), Action::Done);
    assert!(assembly.is_complete());
}

#[test]
fn end_that_is_not_awaited_changes_nothing() {
    let mut assembly = Assembly::new(three_rows(), 1);
    assert!(!assembly.record(0, page("1 page")));
    assert!(!assembly.record(3, page("1 page")));
    assert!(!assembly.record(usize::MAX, Fetched::Failed));
    assert_eq!(
        assembly.next_action(),
        Action::Fetch { index: 0, url: "https://www.goodreads.com/a".to_string() }
    );
    assert!(!assembly.record(1, page("1 page")));
    assert!(assembly.record(0, page("370 pages")));
    assert!(!assembly.record(0, page("999 pages")));
    let results = assembly.finish();
    assert_eq!(results[0].as_ref().unwrap().pages(), 370);
    assert_eq!(results[1], Err(RowError::DetailNotFetched));
    assert_eq!(results[2], Err(RowError::DetailNotFetched));
}

fn expected() -> Vec<Result<GoodreadsBook, RowError>> {
    vec![
        Ok(GoodreadsBook::new(
            "Neverwhere".to_string(),
            vec!["Neil Gaiman".to_string()],
            370,
            Some(vec![SeriesInfo::new("London Below".to_string(), Volume::whole(1))]),
            "https://www.goodreads.com/a".to_string(),
            None,
        )),
        Err(RowError::DetailFetchFailed),
        Ok(GoodreadsBook::new(
            "The Colour of Magic".to_string(),
            vec!["Terry Pratchett".to_string()],
            0,
            Some(vec![
                SeriesInfo::new("Discworld".to_string(), Volume::whole(1)),
                SeriesInfo::new("Rincewind".to_string(), Volume::whole(1)),
            ]),
            "https://www.goodreads.com/c".to_string(),
            None,
        )),
    ]
}

fn run(order: [usize; 3]) -> Vec<Result<GoodreadsBook, RowError>> {
    let mut assembly = Assembly::new(three_rows(), 3);
    for _ in 0..3 {
        assert!(matches!(assembly.next_action(), Action::Fetch { .. }));
    }
    for index in order {
        let fetched = match index {
            0 => page("370 pages"),
            1 => Fetched::Failed,
            _ => page("no count"),
        };
        assert!(assembly.record(index, fetched));
    }
    assert_eq!(assembly.next_action(), Action::Done);
    assembly.finish()
}

#[test]
fn records_keep_the_order_of_the_rows_whatever_the_order_of_arrival() {
    for order in [[0, 1, 2], [0, 2, 1], [1, 0, 2], [1, 2, 0], [2, 0, 1], [2, 1, 0]] {
        let results = run(order);
        assert_eq!(results, expected());
        assert_eq!(results[0].as_ref().unwrap().url(), "https://www.goodreads.com/a");
        assert_eq!(results[2].as_ref().unwrap().url(), "https://www.goodreads.com/c");
    }
}

#[test]
fn no_rows_are_complete_at_once() {
    let mut assembly = Assembly::new(vec![], 1);
    assert!(assembly.is_complete());
    assert_eq!(assembly.next_action(), Action::Done);
    assert_eq!(assembly.finish(), vec![]);
}

#[test]
fn search_with_a_row_that_lacks_its_title() {
    let results_page = r#"<table>
      <tr itemscope itemtype="http://schema.org/Book"><td>
        <a class="bookTitle" href="/book/show/1">Neverwhere (London Below, #1)</a>
        <a class="authorName" href="/author/1">Neil Gaiman</a></td></tr>
      <tr itemscope itemtype="http://schema.org/Book"><td>
        <a class="authorName" href="/author/2">Derek Landy</a></td></tr>
      <tr itemscope itemtype="http://schema.org/Book"><td>
        <a class="bookTitle" href="/book/show/3">Bedlam</a>
        <a class="authorName" href="/author/2">Derek Landy</a></td></tr>
    </table>"#;
    let mut assembly = Assembly::new(scan(results_page), 1);
    let mut fetched_urls = vec![];
    loop {
        match assembly.next_action() {
            Action::Fetch { index, url } => {
                let body = if url.ends_with("/1") { page("370 pages") } else { page("608 pages") };
                fetched_urls.push(url);
                assert!(assembly.record(index, body));
            }
            Action::Wait => unreachable!(),
            Action::Done => break,
        }
    }
    assert_eq!(
        fetched_urls,
        vec!["https://www.goodreads.com/book/show/1", "https://www.goodreads.com/book/show/3"]
    );
    let results = assembly.finish();
    assert_eq!(results.len(), 2);
    assert_eq!(
        results[0],
        Ok(GoodreadsBook::new(
            "Neverwhere".to_string(),
            vec!["Neil Gaiman".to_string()],
            370,
            Some(vec![SeriesInfo::new("London Below".to_string(), Volume::whole(1))]),
            String::new(),
            None,
        ))
    );
    assert_eq!(
        results[1],
        Ok(GoodreadsBook::new(
            "Bedlam".to_string(),
            vec!["Derek Landy".to_string()],
            608,
            None,
            String::new(),
            None,
        ))
    );
}

#[test]
fn search_fails_as_a_whole_where_the_results_cannot_be_had() {
    assert_eq!(Assembly::begin(Fetched::Failed, 4).err(), Some(SearchError::ResultsFetchFailed));
}

#[test]
fn search_begins_with_the_rows_of_the_results() {
    let results_page = r#"<table>
      <tr itemscope itemtype="http://schema.org/Book"><td>
        <a class="bookTitle" href="/book/show/1">Neverwhere (London Below, #1)</a></td></tr>
      <tr itemscope itemtype="http://schema.org/Book"><td>
        <a class="bookTitle" href="/book/show/3">Bedlam</a></td></tr>
    </table>"#;
    let mut assembly = Assembly::begin(Fetched::Page(results_page.to_string()), 4).unwrap();
    assert_eq!(assembly.len(), 2);
    assert!(!assembly.is_complete());
    assert_eq!(
        assembly.next_action(),
        Action::Fetch { index: 0, url: "https://www.goodreads.com/book/show/1".to_string() }
    );
    assert_eq!(
        assembly.next_action(),
        Action::Fetch { index: 1, url: "https://www.goodreads.com/book/show/3".to_string() }
    );
    assert_eq!(assembly.next_action(), Action::Wait);
    let mut empty = Assembly::begin(Fetched::Page(String::new()), 1).unwrap();
    assert_eq!(empty.len(), 0);
    assert_eq!(empty.next_action(), Action::Done);
}

#[test]
fn limit_of_zero_lets_no_fetch_start() {
    let mut assembly = Assembly::new(three_rows(), 0);
    assert_eq!(assembly.next_action(), Action::Done);
    assert!(!assembly.is_complete());
    assert_eq!(
        assembly.finish(),
        vec![
            Err(RowError::DetailNotFetched),
            Err(RowError::DetailNotFetched),
            Err(RowError::DetailNotFetched)
        ]
    );
}
