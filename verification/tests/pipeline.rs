use fastladder_bookwalker::client::{
    append_feeds, new_books_request, page_to_feeds, schedule_books_request,
};
use fastladder_bookwalker::feed::{Feed, FeedError};
use fastladder_bookwalker::json::{body_of_feed, encode_feed, render_feeds};
use fastladder_bookwalker::publish::{check_post_response, post_feeds_request};

const BASE: &str = "https://bookwalker.jp";

fn item_block(
    anchor: &str,
    author: &str,
    title: &str,
    shop: &str,
    extra: &str,
) -> String {
    format!(
        "<div class=\"bookItemInner\">\
         <h3 class=\"img-book\">{}</h3>\
         <div class=\"book-name\">{}</div>\
         <div class=\"book-tl\">{}</div>\
         <div class=\"shop-name\">{}</div>\
         {}\
         </div>",
        anchor, author, title, shop, extra
    )
}

fn full_item(n: u32, extra: &str) -> String {
    item_block(
        &format!(
            "<a href=\"https://bookwalker.jp/de{}/\">\
             <img src=\"https://c.bookwalker.jp/t{}.jpg\"/></a>",
            n, n
        ),
        &format!("Author {}", n),
        &format!("Title {}", n),
        &format!("Shop {}", n),
        extra,
    )
}

fn page(items: &[String]) -> String {
    format!("<html><body>{}</body></html>", items.concat())
}

fn extract_page(html: &str) -> Result<Vec<Feed>, FeedError> {
    page_to_feeds(200, html, "https://bookwalker.jp/new/st1/?list=0", "BOOK WALKER /new/st1/?list=0")
}

#[test]
fn well_formed_page_yields_one_record_per_item_in_order() {
    let html = page(&[
        full_item(1, "<div class=\"book-price\">500 yen</div>"),
        full_item(2, ""),
    ]);
    let feeds = extract_page(&html).unwrap();
    assert_eq!(feeds.len(), 2);
    assert_eq!(feeds[0].author, "Author 1");
    assert_eq!(feeds[0].title, "Title 1");
    assert_eq!(feeds[0].shop, "Shop 1");
    assert_eq!(feeds[0].link, "https://bookwalker.jp/de1/");
    assert_eq!(feeds[0].thumb_url, "https://c.bookwalker.jp/t1.jpg");
    assert_eq!(feeds[0].price.as_deref(), Some("500 yen"));
    assert_eq!(feeds[0].category, "bookwalker");
    assert_eq!(feeds[0].feedlink, "https://bookwalker.jp/new/st1/?list=0");
    assert_eq!(feeds[0].feedtitle, "BOOK WALKER /new/st1/?list=0");
    assert_eq!(feeds[1].author, "Author 2");
    assert_eq!(feeds[1].price, None);
}

#[test]
fn guid_is_the_raw_link() {
    let html = page(&[full_item(7, "")]);
    let feeds = extract_page(&html).unwrap();
    assert_eq!(feeds[0].guid, feeds[0].link);
    assert_eq!(feeds[0].guid, "https://bookwalker.jp/de7/");
}

#[test]
fn thumbnail_url_is_normalized_by_parsing() {
    let anchor = "<a href=\"https://bookwalker.jp/de9/\">\
                  <img src=\"HTTPS://C.BOOKWALKER.JP/t9.jpg\"/></a>";
    let html = page(&[item_block(anchor, "A", "T", "S", "")]);
    let feeds = extract_page(&html).unwrap();
    assert_eq!(feeds[0].thumb_url, "https://c.bookwalker.jp/t9.jpg");
}

#[test]
fn missing_image_block_fails_whole_page() {
    let html = page(&[
        full_item(1, ""),
        item_block("", "A", "T", "S", "").replace("img-book", "img-other"),
    ]);
    let err = extract_page(&html).unwrap_err();
    assert_eq!(err, FeedError::MissingField("image block".to_string()));
}

#[test]
fn missing_anchor_fails() {
    let anchor = "<img src=\"https://c.bookwalker.jp/t1.jpg\"/>";
    let html = page(&[item_block(anchor, "A", "T", "S", "")]);
    let err = extract_page(&html).unwrap_err();
    assert_eq!(err, FeedError::MissingField("link anchor".to_string()));
}

#[test]
fn missing_href_fails() {
    let anchor = "<a><img src=\"https://c.bookwalker.jp/t1.jpg\"/></a>";
    let html = page(&[item_block(anchor, "A", "T", "S", "")]);
    let err = extract_page(&html).unwrap_err();
    assert_eq!(err, FeedError::MissingField("href".to_string()));
}

#[test]
fn missing_image_fails() {
    let anchor = "<a href=\"https://bookwalker.jp/de1/\">x</a>";
    let html = page(&[item_block(anchor, "A", "T", "S", "")]);
    let err = extract_page(&html).unwrap_err();
    assert_eq!(err, FeedError::MissingField("thumbnail image".to_string()));
}

#[test]
fn missing_src_fails() {
    let anchor = "<a href=\"https://bookwalker.jp/de1/\"><img/></a>";
    let html = page(&[item_block(anchor, "A", "T", "S", "")]);
    let err = extract_page(&html).unwrap_err();
    assert_eq!(err, FeedError::MissingField("src".to_string()));
}

#[test]
fn malformed_thumbnail_url_fails() {
    let anchor = "<a href=\"https://bookwalker.jp/de1/\"><img src=\"not a url\"/></a>";
    let html = page(&[item_block(anchor, "A", "T", "S", "")]);
    let err = extract_page(&html).unwrap_err();
    assert_eq!(err, FeedError::UrlParse);
}

#[test]
fn missing_author_fails() {
    let html = page(&[full_item(1, "").replace("book-name", "book-other")]);
    let err = extract_page(&html).unwrap_err();
    assert_eq!(err, FeedError::MissingField("author".to_string()));
}

#[test]
fn missing_title_fails() {
    let html = page(&[full_item(1, "").replace("book-tl", "book-other")]);
    let err = extract_page(&html).unwrap_err();
    assert_eq!(err, FeedError::MissingField("title".to_string()));
}

#[test]
fn missing_shop_fails() {
    let html = page(&[full_item(1, "").replace("shop-name", "other-name")]);
    let err = extract_page(&html).unwrap_err();
    assert_eq!(err, FeedError::MissingField("shop".to_string()));
}

#[test]
fn price_only_yields_price_text() {
    let html = page(&[full_item(1, "<div class=\"book-price\">700 yen</div>")]);
    let feeds = extract_page(&html).unwrap();
    assert_eq!(feeds[0].price.as_deref(), Some("700 yen"));
}

#[test]
fn series_only_yields_series_text() {
    let html = page(&[full_item(1, "<div class=\"book-series\">Vol. 3</div>")]);
    let feeds = extract_page(&html).unwrap();
    assert_eq!(feeds[0].price.as_deref(), Some("Vol. 3"));
}

#[test]
fn price_wins_over_series_even_later_in_document() {
    let html = page(&[full_item(
        1,
        "<div class=\"book-series\">Vol. 3</div><div class=\"book-price\">700 yen</div>",
    )]);
    let feeds = extract_page(&html).unwrap();
    assert_eq!(feeds[0].price.as_deref(), Some("700 yen"));
}

#[test]
fn neither_price_nor_series_is_absent() {
    let html = page(&[full_item(1, "")]);
    let feeds = extract_page(&html).unwrap();
    assert_eq!(feeds[0].price, None);
}

#[test]
fn class_attribute_is_matched_as_words() {
    let html = page(&[full_item(1, "").replace(
        "class=\"bookItemInner\"",
        "class=\"m-book-item bookItemInner hover\"",
    )]);
    let feeds = extract_page(&html).unwrap();
    assert_eq!(feeds.len(), 1);
    let html2 = page(&[full_item(1, "").replace(
        "class=\"bookItemInner\"",
        "class=\"bookItemInnerWide\"",
    )]);
    let feeds2 = extract_page(&html2).unwrap();
    assert_eq!(feeds2.len(), 0);
}

#[test]
fn non_ok_status_is_surfaced_with_code_and_body() {
    let err = page_to_feeds(404, "gone", "u", "t").unwrap_err();
    assert_eq!(
        err,
        FeedError::HttpStatus { code: 404, body: "gone".to_string() }
    );
    assert_eq!(err.message(), "request returned 404: gone");
}

#[test]
fn new_request_builds_path_title_and_url() {
    let req = new_books_request(BASE, "st1").unwrap();
    assert_eq!(req.path, "/new/st1/?list=0");
    assert_eq!(req.feed_title, "BOOK WALKER /new/st1/?list=0");
    assert_eq!(req.url, "https://bookwalker.jp/new/st1/?list=0");
}

#[test]
fn schedule_request_builds_path_title_and_url() {
    let req = schedule_books_request(BASE, "ct2").unwrap();
    assert_eq!(req.path, "/schedule/ct2/?list=0");
    assert_eq!(req.feed_title, "BOOK WALKER /schedule/ct2/?list=0");
    assert_eq!(req.url, "https://bookwalker.jp/schedule/ct2/?list=0");
}

#[test]
fn bad_base_url_is_a_url_error() {
    let err = new_books_request("not a base", "st1").unwrap_err();
    assert_eq!(err, FeedError::UrlParse);
}

fn sample_feed(price: Option<&str>) -> Feed {
    Feed {
        feedlink: "https://bookwalker.jp/new/st1/?list=0".to_string(),
        feedtitle: "BOOK WALKER /new/st1/?list=0".to_string(),
        author: "An Author".to_string(),
        title: "A \"Title\"".to_string(),
        thumb_url: "https://c.bookwalker.jp/t1.jpg".to_string(),
        link: "https://bookwalker.jp/de1/".to_string(),
        shop: "A Shop".to_string(),
        price: price.map(|p| p.to_string()),
        category: "bookwalker".to_string(),
        guid: "https://bookwalker.jp/de1/".to_string(),
    }
}

#[test]
fn body_decodes_back_to_fields() {
    let body = body_of_feed(&sample_feed(Some("700 yen")));
    assert_eq!(
        body,
        "<img src=\"https://c.bookwalker.jp/t1.jpg\"/>\
         <p>An Author</p><p>A Shop</p><p>700 yen</p>"
    );
    let doc = select::document::Document::from(body.as_str());
    let img = doc.find(select::predicate::Name("img")).next().unwrap();
    assert_eq!(img.attr("src"), Some("https://c.bookwalker.jp/t1.jpg"));
    let texts: Vec<String> = doc
        .find(select::predicate::Name("p"))
        .map(|n| n.text())
        .collect();
    assert_eq!(texts, vec!["An Author", "A Shop", "700 yen"]);
}

#[test]
fn body_without_price_has_two_paragraphs() {
    let body = body_of_feed(&sample_feed(None));
    let doc = select::document::Document::from(body.as_str());
    let texts: Vec<String> = doc
        .find(select::predicate::Name("p"))
        .map(|n| n.text())
        .collect();
    assert_eq!(texts, vec!["An Author", "A Shop"]);
}

#[test]
fn encoded_record_parses_back_with_all_fields() {
    let f = sample_feed(Some("700 yen"));
    let one = encode_feed(&f);
    let v: serde_json::Value = serde_json::from_str(&one).unwrap();
    assert_eq!(v["feedlink"].as_str().unwrap(), f.feedlink);
    assert_eq!(v["feedtitle"].as_str().unwrap(), f.feedtitle);
    assert_eq!(v["author"].as_str().unwrap(), f.author);
    assert_eq!(v["title"].as_str().unwrap(), "A \"Title\"");
    assert_eq!(v["link"].as_str().unwrap(), f.link);
    assert_eq!(v["category"].as_str().unwrap(), "bookwalker");
    assert_eq!(v["guid"].as_str().unwrap(), f.guid);
    assert_eq!(
        v["body"].as_str().unwrap(),
        body_of_feed(&f)
    );
}

#[test]
fn escaping_covers_quotes_backslashes_and_controls() {
    let mut f = sample_feed(None);
    f.author = "a\\b\"c\nd".to_string();
    let one = encode_feed(&f);
    let v: serde_json::Value = serde_json::from_str(&one).unwrap();
    assert_eq!(v["author"].as_str().unwrap(), "a\\b\"c\nd");
    assert!(one.contains("a\\\\b\\\"c\\u000ad"));
}

#[test]
fn rendered_batch_parses_back_to_the_records() {
    let feeds = vec![sample_feed(Some("700 yen")), sample_feed(None)];
    let rendered = render_feeds(&feeds);
    let v: serde_json::Value = serde_json::from_str(&rendered).unwrap();
    let arr = v.as_array().unwrap();
    assert_eq!(arr.len(), 2);
    assert_eq!(arr[0]["author"].as_str().unwrap(), "An Author");
    assert!(arr[0]["body"].as_str().unwrap().contains("700 yen"));
    assert!(!arr[1]["body"].as_str().unwrap().contains("700 yen"));
    let empty: Vec<Feed> = Vec::new();
    assert_eq!(render_feeds(&empty), "[]");
}

#[test]
fn post_request_form_encodes_key_and_batch() {
    let empty: Vec<Feed> = Vec::new();
    let req = post_feeds_request("https://fastladder.example", "se cret&", &empty).unwrap();
    assert_eq!(req.url, "https://fastladder.example/rpc/update_feeds");
    assert_eq!(req.body, "api_key=se+cret%26&feeds=%5B%5D");
}

#[test]
fn post_request_with_bad_base_is_a_url_error() {
    let empty: Vec<Feed> = Vec::new();
    let err = post_feeds_request("nope", "k", &empty).unwrap_err();
    assert_eq!(err, FeedError::UrlParse);
}

#[test]
fn post_response_ok_only_on_status_200() {
    assert!(check_post_response(200, "").is_ok());
    let err = check_post_response(500, "boom").unwrap_err();
    assert_eq!(err, FeedError::HttpStatus { code: 500, body: "boom".to_string() });
    assert_eq!(err.message(), "request returned 500: boom");
}

#[test]
fn error_messages_name_the_missing_field() {
    let err = FeedError::MissingField("image block".to_string());
    assert_eq!(err.message(), "unable to find image block");
    assert_eq!(FeedError::UrlParse.message(), "unable to parse URL");
    assert_eq!(
        FeedError::Transport("connection refused".to_string()).message(),
        "connection refused"
    );
}

#[test]
fn end_to_end_two_identifiers_preserve_order() {
    let ids = ["st1", "st2"];
    let pages = [
        page(&[full_item(1, ""), full_item(2, "")]),
        page(&[full_item(3, "")]),
    ];
    let mut batch: Vec<Feed> = Vec::new();
    for (id, stub) in ids.iter().zip(pages.iter()) {
        let req = new_books_request(BASE, id).unwrap();
        let feeds = page_to_feeds(200, stub, &req.url, &req.feed_title).unwrap();
        append_feeds(&mut batch, feeds);
    }
    assert_eq!(batch.len(), 3);
    assert_eq!(batch[0].title, "Title 1");
    assert_eq!(batch[1].title, "Title 2");
    assert_eq!(batch[2].title, "Title 3");
    assert_eq!(batch[0].feedtitle, "BOOK WALKER /new/st1/?list=0");
    assert_eq!(batch[2].feedtitle, "BOOK WALKER /new/st2/?list=0");
    assert_eq!(batch[2].feedlink, "https://bookwalker.jp/new/st2/?list=0");
}

#[test]
fn dry_run_rendering_of_extracted_page_parses_back() {
    let html = page(&[full_item(1, "<div class=\"book-price\">500 yen</div>")]);
    let feeds = extract_page(&html).unwrap();
    let rendered = render_feeds(&feeds);
    let v: serde_json::Value = serde_json::from_str(&rendered).unwrap();
    let arr = v.as_array().unwrap();
    assert_eq!(arr.len(), 1);
    assert_eq!(arr[0]["guid"].as_str().unwrap(), "https://bookwalker.jp/de1/");
    assert_eq!(arr[0]["title"].as_str().unwrap(), "Title 1");
}
