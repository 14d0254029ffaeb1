//! The listing-page side of the pipeline: building the request for one
//! identifier (new releases or scheduled releases), and turning a fetched
//! response into feed records.  The transport itself stays outside the
//! library; callers hand in the response status and text.

use vstd::prelude::*;
use vstd::string::*;

use crate::dom::parse_page;
use crate::extract::{extract_books, extract_result};
use crate::feed::{feeds_view, Feed, FeedError, FeedErrorView, FeedView};
use crate::urls::{join_url, url_join};

verus! {

/// One page to fetch: the absolute URL, the relative path it was built
/// from, and the feed title that labels the page's batch.
#[derive(Debug)]
pub struct PageRequest {
    pub url: String,
    pub path: String,
    pub feed_title: String,
}

/// The relative path of the new-releases listing for `id`.
pub open spec fn new_path_of(id: Seq<char>) -> Seq<char> {
    "/new/"@ + id + "/?list=0"@
}

/// The relative path of the scheduled-releases listing for `id`.
pub open spec fn schedule_path_of(id: Seq<char>) -> Seq<char> {
    "/schedule/"@ + id + "/?list=0"@
}

/// The feed title that labels the page at `path`.
pub open spec fn feed_title_of(path: Seq<char>) -> Seq<char> {
    "BOOK WALKER "@ + path
}

/// The request for the new-releases listing of `id`: the path joined onto
/// the base origin, or a URL error when the join fails.
pub fn new_books_request(base_url: &str, id: &str) -> (r: Result<PageRequest, FeedError>)
    ensures
        match url_join(base_url@, new_path_of(id@)) {
            Some(u) => r matches Ok(pr) && pr.url@ == u && pr.path@ == new_path_of(id@)
                && pr.feed_title@ == feed_title_of(new_path_of(id@)),
            None => r matches Err(e) && e@ == FeedErrorView::UrlParse,
        },
{
    let mut path = String::new();
    path.append("/new/");
    path.append(id);
    path.append("/?list=0");
    proof {
        assert(path@ =~= new_path_of(id@));
    }
    finish_request(base_url, path)
}

/// The request for the scheduled-releases listing of `id`.
pub fn schedule_books_request(base_url: &str, id: &str) -> (r: Result<PageRequest, FeedError>)
    ensures
        match url_join(base_url@, schedule_path_of(id@)) {
            Some(u) => r matches Ok(pr) && pr.url@ == u && pr.path@ == schedule_path_of(id@)
                && pr.feed_title@ == feed_title_of(schedule_path_of(id@)),
            None => r matches Err(e) && e@ == FeedErrorView::UrlParse,
        },
{
    let mut path = String::new();
    path.append("/schedule/");
    path.append(id);
    path.append("/?list=0");
    proof {
        assert(path@ =~= schedule_path_of(id@));
    }
    finish_request(base_url, path)
}

fn finish_request(base_url: &str, path: String) -> (r: Result<PageRequest, FeedError>)
    ensures
        match url_join(base_url@, path@) {
            Some(u) => r matches Ok(pr) && pr.url@ == u && pr.path@ == path@ && pr.feed_title@
                == feed_title_of(path@),
            None => r matches Err(e) && e@ == FeedErrorView::UrlParse,
        },
{
    let mut feed_title = String::new();
    feed_title.append("BOOK WALKER ");
    feed_title.append(path.as_str());
    proof {
        assert(feed_title@ =~= feed_title_of(path@));
    }
    match join_url(base_url, path.as_str()) {
        Some(url) => Ok(PageRequest { url, path, feed_title }),
        None => Err(FeedError::UrlParse),
    }
}

/// Turns one fetched listing page into feed records: a response status
/// other than OK is surfaced with its body; an OK response is parsed and
/// extracted.
pub fn page_to_feeds(status: u16, body: &str, source_url: &str, feed_title: &str) -> (r: Result<
    Vec<Feed>,
    FeedError,
>)
    ensures
        status != 200 ==> (r matches Err(e) && e@ == FeedErrorView::HttpStatus {
            code: status,
            body: body@,
        }),
        status == 200 ==> match r {
            Ok(v) => extract_result(crate::dom::raw_nodes_of(body@), source_url@, feed_title@)
                == Ok::<Seq<FeedView>, FeedErrorView>(feeds_view(v@)),
            Err(e) => extract_result(crate::dom::raw_nodes_of(body@), source_url@, feed_title@)
                == Err::<Seq<FeedView>, FeedErrorView>(e@),
        },
{
    if status != 200 {
        return Err(FeedError::HttpStatus { code: status, body: body.to_owned() });
    }
    let nodes = parse_page(body);
    extract_books(&nodes, source_url, feed_title)
}

/// Adds one page's records to the run's batch, in order.
pub fn append_feeds(batch: &mut Vec<Feed>, page: Vec<Feed>)
    ensures
        final(batch)@ == old(batch)@ + page@,
{
    let mut page = page;
    batch.append(&mut page);
}

/// A field-for-field copy of one record.
pub fn clone_feed(f: &Feed) -> (r: Feed)
    ensures
        r@ == f@,
{
    Feed {
        feedlink: f.feedlink.clone(),
        feedtitle: f.feedtitle.clone(),
        author: f.author.clone(),
        title: f.title.clone(),
        thumb_url: f.thumb_url.clone(),
        link: f.link.clone(),
        shop: f.shop.clone(),
        price: match &f.price {
            Some(p) => Some(p.clone()),
            None => None,
        },
        category: f.category.clone(),
        guid: f.guid.clone(),
    }
}

} // verus!
