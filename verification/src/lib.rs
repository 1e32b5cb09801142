//! Book records from a catalog's search results: the rows of a results
//! page, the grammar of a title with its series, page counts, cover
//! addresses, and the assembly of records in the order of the rows.

pub mod assemble;
pub mod book;
pub mod cover;
pub mod entry;
pub mod markup;
pub mod pages;
pub mod query;
pub mod scan;
pub mod series;
pub mod text;
pub mod title;

pub use assemble::{
    book_from, enrich, Action, Assembly, Fetched, RowError, SearchError, Slot,
};
pub use book::GoodreadsBook;
pub use cover::sanitize_url;
pub use pages::{extract_pages_from_url, pages_from_texts, pages_in_text};
pub use query::search_url;
pub use scan::{resolve, rows_from, scan, Row};
pub use series::{SeriesInfo, Volume};
pub use title::split;
