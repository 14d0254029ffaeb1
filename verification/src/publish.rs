//! The publisher side: encoding the whole batch once, form-encoding it with
//! the API key, and deciding the outcome of the one POST that relays it.
//! The transport itself stays outside the library.

use vstd::prelude::*;

use crate::feed::{feeds_view, Feed, FeedError, FeedErrorView, FeedView};
use crate::json::{feeds_json, render_feeds};
use crate::urls::{join_url, url_join};

verus! {

/// What form-encoding the two given name/value pairs yields.
pub uninterp spec fn form_pairs_of(
    k1: Seq<char>,
    v1: Seq<char>,
    k2: Seq<char>,
    v2: Seq<char>,
) -> Seq<char>;

/// Relies on `url::form_urlencoded::Serializer`: appending two name/value
/// pairs and finishing yields a body that depends on the four strings
/// alone.
#[verifier::external_body]
fn form_encode_two(k1: &str, v1: &str, k2: &str, v2: &str) -> (r: String)
    ensures
        r@ == form_pairs_of(k1@, v1@, k2@, v2@),
{
    url::form_urlencoded::Serializer::new(String::new())
        .append_pair(k1, v1)
        .append_pair(k2, v2)
        .finish()
}

/// One batch publish to perform: the absolute endpoint URL and the
/// form-encoded request body.
#[derive(Debug)]
pub struct PostRequest {
    pub url: String,
    pub body: String,
}

/// The body of the publish call: the API key and the encoded batch as the
/// two form fields.
pub open spec fn post_body_of(api_key: Seq<char>, feeds: Seq<FeedView>) -> Seq<char> {
    form_pairs_of("api_key"@, api_key, "feeds"@, feeds_json(feeds))
}

/// Builds the one POST that ships the whole batch: the update endpoint
/// joined onto the aggregator's base URL, and the body carrying the API
/// key and every record.  The whole multi-page batch goes in one call.
pub fn post_feeds_request(base_url: &str, api_key: &str, feeds: &Vec<Feed>) -> (r: Result<
    PostRequest,
    FeedError,
>)
    ensures
        match url_join(base_url@, "/rpc/update_feeds"@) {
            Some(u) => r matches Ok(pr) && pr.url@ == u && pr.body@ == post_body_of(
                api_key@,
                feeds_view(feeds@),
            ),
            None => r matches Err(e) && e@ == FeedErrorView::UrlParse,
        },
{
    match join_url(base_url, "/rpc/update_feeds") {
        None => Err(FeedError::UrlParse),
        Some(url) => {
            let encoded = render_feeds(feeds);
            let body = form_encode_two("api_key", api_key, "feeds", encoded.as_str());
            Ok(PostRequest { url, body })
        },
    }
}

/// Decides the outcome of the publish call: OK means the batch was taken;
/// any other status is surfaced with its code and the raw response body.
pub fn check_post_response(status: u16, body: &str) -> (r: Result<(), FeedError>)
    ensures
        status == 200 ==> r is Ok,
        status != 200 ==> (r matches Err(e) && e@ == FeedErrorView::HttpStatus {
            code: status,
            body: body@,
        }),
{
    if status == 200 {
        Ok(())
    } else {
        Err(FeedError::HttpStatus { code: status, body: body.to_owned() })
    }
}

} // verus!
