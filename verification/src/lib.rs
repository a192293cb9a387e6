//! Crawler core for a paginated exam-question portal: extracting question
//! records from listing markup, enumerating categories, and driving the
//! page-by-page crawl until the end-of-data sentinel or the page ceiling.

pub mod crawl;
pub mod extract;
pub mod markup;
pub mod output;
pub mod question;
pub mod sections;
pub mod text;

use vstd::prelude::*;

verus! {

/// Ceiling on the page counter: a crawl never lets `page` reach past it.
pub const PAGE_LIMIT: usize = 200;

} // verus!
