//! The item extractor: locates every listing-item block of a parsed page
//! and maps each to a feed record under the field policy: image block,
//! anchor, `href`, image, `src`, author, title and shop are mandatory, the
//! price or series label is optional with the price label taking priority.
//! An item that fails a mandatory rule aborts the whole page's extraction
//! with that error.

use vstd::prelude::*;
use vstd::string::*;

use crate::dom::{
    find_in, find_in_exec, is_descendant, marker_matches, marker_matches_exec, node_attr,
    attr_lookup, text_of, text_of_exec, Marker, MarkerSpec, NodeData, RawNode,
};
use crate::feed::{Feed, FeedError, FeedErrorView, FeedView};
use crate::urls::{parse_absolute_url, url_normalize};

verus! {

/// The fields taken out of one listing-item block.  `guid` is the raw item
/// link, the identifier policy of this library.
pub struct BookItem {
    pub author: String,
    pub title: String,
    pub thumb_url: String,
    pub link: String,
    pub shop: String,
    pub price: Option<String>,
    pub guid: String,
}

/// The spec-level form of a `BookItem`.
pub struct BookItemView {
    pub author: Seq<char>,
    pub title: Seq<char>,
    pub thumb_url: Seq<char>,
    pub link: Seq<char>,
    pub shop: Seq<char>,
    pub price: Option<Seq<char>>,
    pub guid: Seq<char>,
}

impl View for BookItem {
    type V = BookItemView;

    open spec fn view(&self) -> BookItemView {
        BookItemView {
            author: self.author@,
            title: self.title@,
            thumb_url: self.thumb_url@,
            link: self.link@,
            shop: self.shop@,
            price: match self.price {
                Some(p) => Some(p@),
                None => None,
            },
            guid: self.guid@,
        }
    }
}

/// The marker of a listing-item block.
pub open spec fn item_marker() -> MarkerSpec {
    MarkerSpec::ByClass("bookItemInner"@)
}

/// Whether index `k` is a listing-item block of the page.
pub open spec fn is_item(nodes: Seq<RawNode>, k: int) -> bool {
    0 <= k < nodes.len() && marker_matches(nodes[k], item_marker())
}

/// The optional label of item `i`: the text of its first price-marker node,
/// else the text of its first series-marker node, else nothing.
pub open spec fn price_of(nodes: Seq<RawNode>, i: int) -> Option<Seq<char>> {
    match find_in(nodes, i, MarkerSpec::ByClass("book-price"@)) {
        Some(p) => Some(text_of(nodes, p)),
        None => match find_in(nodes, i, MarkerSpec::ByClass("book-series"@)) {
            Some(s) => Some(text_of(nodes, s)),
            None => None,
        },
    }
}

/// What extracting the listing-item block at `i` yields: its fields, or the
/// first mandatory-field rule that fails.
pub open spec fn extract_item(nodes: Seq<RawNode>, i: int) -> Result<BookItemView, FeedErrorView> {
    match find_in(nodes, i, MarkerSpec::ByClass("img-book"@)) {
        None => Err(FeedErrorView::MissingField("image block"@)),
        Some(h) => match find_in(nodes, h, MarkerSpec::ByName("a"@)) {
            None => Err(FeedErrorView::MissingField("link anchor"@)),
            Some(a) => match node_attr(nodes[a], "href"@) {
                None => Err(FeedErrorView::MissingField("href"@)),
                Some(link) => match find_in(nodes, a, MarkerSpec::ByName("img"@)) {
                    None => Err(FeedErrorView::MissingField("thumbnail image"@)),
                    Some(im) => match node_attr(nodes[im], "src"@) {
                        None => Err(FeedErrorView::MissingField("src"@)),
                        Some(src) => match url_normalize(src) {
                            None => Err(FeedErrorView::UrlParse),
                            Some(thumb) => match find_in(
                                nodes,
                                i,
                                MarkerSpec::ByClass("book-name"@),
                            ) {
                                None => Err(FeedErrorView::MissingField("author"@)),
                                Some(au) => match find_in(
                                    nodes,
                                    i,
                                    MarkerSpec::ByClass("book-tl"@),
                                ) {
                                    None => Err(FeedErrorView::MissingField("title"@)),
                                    Some(ti) => match find_in(
                                        nodes,
                                        i,
                                        MarkerSpec::ByClass("shop-name"@),
                                    ) {
                                        None => Err(FeedErrorView::MissingField("shop"@)),
                                        Some(sh) => Ok(BookItemView {
                                            author: text_of(nodes, au),
                                            title: text_of(nodes, ti),
                                            thumb_url: thumb,
                                            link: link,
                                            shop: text_of(nodes, sh),
                                            price: price_of(nodes, i),
                                            guid: link,
                                        }),
                                    },
                                },
                            },
                        },
                    },
                },
            },
        },
    }
}

/// Page-level assembly: the extracted fields wrapped with the source URL,
/// the feed title and the fixed category tag.
pub open spec fn feed_of(it: BookItemView, source_url: Seq<char>, feed_title: Seq<char>) -> FeedView {
    FeedView {
        feedlink: source_url,
        feedtitle: feed_title,
        author: it.author,
        title: it.title,
        thumb_url: it.thumb_url,
        link: it.link,
        shop: it.shop,
        price: it.price,
        category: "bookwalker"@,
        guid: it.guid,
    }
}

/// What extracting the page from index `k` on yields: one assembled record
/// per listing-item block, in document order, or the first item error in
/// document order.
pub open spec fn extract_from(
    nodes: Seq<RawNode>,
    source_url: Seq<char>,
    feed_title: Seq<char>,
    k: int,
) -> Result<Seq<FeedView>, FeedErrorView>
    decreases nodes.len() - k,
{
    if !(0 <= k < nodes.len()) {
        Ok(Seq::empty())
    } else if is_item(nodes, k) {
        match extract_item(nodes, k) {
            Err(e) => Err(e),
            Ok(it) => match extract_from(nodes, source_url, feed_title, k + 1) {
                Err(e) => Err(e),
                Ok(fs) => Ok(seq![feed_of(it, source_url, feed_title)] + fs),
            },
        }
    } else {
        extract_from(nodes, source_url, feed_title, k + 1)
    }
}

/// What extracting a whole page yields.
pub open spec fn extract_result(
    nodes: Seq<RawNode>,
    source_url: Seq<char>,
    feed_title: Seq<char>,
) -> Result<Seq<FeedView>, FeedErrorView> {
    extract_from(nodes, source_url, feed_title, 0)
}

/// Extracts the fields of the listing-item block at `i`.
pub fn extract_item_exec(nodes: &Vec<RawNode>, i: usize) -> (r: Result<BookItem, FeedError>)
    ensures
        match r {
            Ok(it) => extract_item(nodes@, i as int) == Ok::<BookItemView, FeedErrorView>(it@),
            Err(e) => extract_item(nodes@, i as int) == Err::<BookItemView, FeedErrorView>(e@),
        },
{
    proof {
        reveal_strlit("img-book");
        reveal_strlit("book-name");
        reveal_strlit("book-tl");
        reveal_strlit("shop-name");
        reveal_strlit("book-price");
        reveal_strlit("book-series");
    }
    let m_img_book = Marker::ByClass("img-book".to_owned());
    let h = match find_in_exec(nodes, i, &m_img_book) {
        Some(h) => h,
        None => {
            return Err(FeedError::MissingField("image block".to_owned()));
        },
    };
    let m_anchor = Marker::ByName("a".to_owned());
    let a = match find_in_exec(nodes, h, &m_anchor) {
        Some(a) => a,
        None => {
            return Err(FeedError::MissingField("link anchor".to_owned()));
        },
    };
    let link = match (match &nodes[a].data {
        NodeData::Element { name: _, attrs } => attr_lookup(attrs, "href"),
        _ => None,
    }) {
        Some(link) => link,
        None => {
            return Err(FeedError::MissingField("href".to_owned()));
        },
    };
    let m_image = Marker::ByName("img".to_owned());
    let im = match find_in_exec(nodes, a, &m_image) {
        Some(im) => im,
        None => {
            return Err(FeedError::MissingField("thumbnail image".to_owned()));
        },
    };
    let src = match (match &nodes[im].data {
        NodeData::Element { name: _, attrs } => attr_lookup(attrs, "src"),
        _ => None,
    }) {
        Some(src) => src,
        None => {
            return Err(FeedError::MissingField("src".to_owned()));
        },
    };
    let thumb = match parse_absolute_url(src.as_str()) {
        Some(thumb) => thumb,
        None => {
            return Err(FeedError::UrlParse);
        },
    };
    let m_author = Marker::ByClass("book-name".to_owned());
    let au = match find_in_exec(nodes, i, &m_author) {
        Some(au) => au,
        None => {
            return Err(FeedError::MissingField("author".to_owned()));
        },
    };
    let m_title = Marker::ByClass("book-tl".to_owned());
    let ti = match find_in_exec(nodes, i, &m_title) {
        Some(ti) => ti,
        None => {
            return Err(FeedError::MissingField("title".to_owned()));
        },
    };
    let m_shop = Marker::ByClass("shop-name".to_owned());
    let sh = match find_in_exec(nodes, i, &m_shop) {
        Some(sh) => sh,
        None => {
            return Err(FeedError::MissingField("shop".to_owned()));
        },
    };
    let m_price = Marker::ByClass("book-price".to_owned());
    let price = match find_in_exec(nodes, i, &m_price) {
        Some(p) => Some(text_of_exec(nodes, p)),
        None => {
            let m_series = Marker::ByClass("book-series".to_owned());
            match find_in_exec(nodes, i, &m_series) {
                Some(s) => Some(text_of_exec(nodes, s)),
                None => None,
            }
        },
    };
    let it = BookItem {
        author: text_of_exec(nodes, au),
        title: text_of_exec(nodes, ti),
        thumb_url: thumb,
        link: link.clone(),
        shop: text_of_exec(nodes, sh),
        price: price,
        guid: link,
    };
    Ok(it)
}

/// Wraps extracted fields with the page-level metadata.
pub fn assemble(item: BookItem, source_url: &str, feed_title: &str) -> (r: Feed)
    ensures
        r@ == feed_of(item@, source_url@, feed_title@),
{
    Feed {
        feedlink: source_url.to_owned(),
        feedtitle: feed_title.to_owned(),
        author: item.author,
        title: item.title,
        thumb_url: item.thumb_url,
        link: item.link,
        shop: item.shop,
        price: item.price,
        category: "bookwalker".to_owned(),
        guid: item.guid,
    }
}

/// Extracts every listing-item block of the page, in document order, and
/// assembles one feed record per block; the first failing item aborts the
/// whole page with its error and no partial records.
pub fn extract_books(nodes: &Vec<RawNode>, source_url: &str, feed_title: &str) -> (r: Result<
    Vec<Feed>,
    FeedError,
>)
    ensures
        match r {
            Ok(v) => extract_result(nodes@, source_url@, feed_title@) == Ok::<
                Seq<FeedView>,
                FeedErrorView,
            >(crate::feed::feeds_view(v@)),
            Err(e) => extract_result(nodes@, source_url@, feed_title@) == Err::<
                Seq<FeedView>,
                FeedErrorView,
            >(e@),
        },
{
    proof {
        reveal_strlit("bookItemInner");
    }
    let m_item = Marker::ByClass("bookItemInner".to_owned());
    let n = nodes.len();
    let mut feeds: Vec<Feed> = Vec::new();
    let mut k: usize = 0;
    proof {
        assert(crate::feed::feeds_view(feeds@) + extract_from(
            nodes@,
            source_url@,
            feed_title@,
            0,
        )->Ok_0 =~= extract_from(nodes@, source_url@, feed_title@, 0)->Ok_0);
    }
    while k < n
        invariant
            n == nodes@.len(),
            k <= n,
            m_item@ == item_marker(),
            crate::dom::marker_wf(m_item@),
            extract_result(nodes@, source_url@, feed_title@) == (match extract_from(
                nodes@,
                source_url@,
                feed_title@,
                k as int,
            ) {
                Ok(rest) => Ok::<Seq<FeedView>, FeedErrorView>(
                    crate::feed::feeds_view(feeds@) + rest,
                ),
                Err(e) => Err::<Seq<FeedView>, FeedErrorView>(e),
            }),
        decreases n - k,
    {
        if marker_matches_exec(&nodes[k], &m_item) {
            match extract_item_exec(nodes, k) {
                Err(e) => {
                    return Err(e);
                },
                Ok(it) => {
                    let f = assemble(it, source_url, feed_title);
                    proof {
                        let ghost fv = feed_of(it@, source_url@, feed_title@);
                        let ghost old_views = crate::feed::feeds_view(feeds@);
                        assert(crate::feed::feeds_view(feeds@.push(f)) =~= old_views.push(f@));
                        assert(forall|rest: Seq<FeedView>|
                            old_views.push(fv) + rest =~= old_views + (seq![fv] + rest));
                    }
                    feeds.push(f);
                },
            }
        }
        k = k + 1;
    }
    proof {
        assert(crate::feed::feeds_view(feeds@) + extract_from(
            nodes@,
            source_url@,
            feed_title@,
            n as int,
        )->Ok_0 =~= crate::feed::feeds_view(feeds@));
    }
    Ok(feeds)
}

} // verus!
