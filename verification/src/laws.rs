//! The general properties of the pipeline, stated and proved once and for
//! all inputs: extraction yields one record per item block in document
//! order, the first failing block fails the whole page, the price label
//! takes priority over the series label, a synthesized body decodes back
//! to its fields, the identifier is a function of the link alone, and a
//! rendered batch, decoded as a JSON array, yields its wire records back.

use vstd::prelude::*;

use crate::dom::{find_from, find_in, is_descendant, marker_matches, MarkerSpec, RawNode};
use crate::extract::{
    extract_from, extract_item, extract_result, feed_of, is_item, price_of,
};
use crate::feed::{FeedErrorView, FeedView};
use crate::json::{body_html, esc_char, feed_json, feeds_json_prefix, hex_digit, json_escape, json_str};

verus! {

/// How many listing-item blocks stand at or after `k`.
pub open spec fn item_count(nodes: Seq<RawNode>, k: int) -> nat
    decreases nodes.len() - k,
{
    if !(0 <= k < nodes.len()) {
        0
    } else if is_item(nodes, k) {
        1 + item_count(nodes, k + 1)
    } else {
        item_count(nodes, k + 1)
    }
}

/// The records owed for the item blocks at or after `k`, in document order.
pub open spec fn feeds_of_items(
    nodes: Seq<RawNode>,
    source_url: Seq<char>,
    feed_title: Seq<char>,
    k: int,
) -> Seq<FeedView>
    decreases nodes.len() - k,
{
    if !(0 <= k < nodes.len()) {
        Seq::empty()
    } else if is_item(nodes, k) {
        seq![feed_of(extract_item(nodes, k)->Ok_0, source_url, feed_title)] + feeds_of_items(
            nodes,
            source_url,
            feed_title,
            k + 1,
        )
    } else {
        feeds_of_items(nodes, source_url, feed_title, k + 1)
    }
}

proof fn lemma_feeds_of_items_len(
    nodes: Seq<RawNode>,
    source_url: Seq<char>,
    feed_title: Seq<char>,
    k: int,
)
    ensures
        feeds_of_items(nodes, source_url, feed_title, k).len() == item_count(nodes, k),
    decreases nodes.len() - k,
{
    if 0 <= k < nodes.len() {
        lemma_feeds_of_items_len(nodes, source_url, feed_title, k + 1);
    }
}

proof fn lemma_extract_from_all_ok(
    nodes: Seq<RawNode>,
    source_url: Seq<char>,
    feed_title: Seq<char>,
    k: int,
)
    requires
        forall|j: int| is_item(nodes, j) ==> extract_item(nodes, j) is Ok,
    ensures
        extract_from(nodes, source_url, feed_title, k) == Ok::<Seq<FeedView>, FeedErrorView>(
            feeds_of_items(nodes, source_url, feed_title, k),
        ),
    decreases nodes.len() - k,
{
    if !(0 <= k < nodes.len()) {
        assert(feeds_of_items(nodes, source_url, feed_title, k) =~= Seq::<FeedView>::empty());
    } else {
        lemma_extract_from_all_ok(nodes, source_url, feed_title, k + 1);
    }
}

/// Law: on a page whose every item block carries all mandatory fields,
/// extraction succeeds with exactly one record per item block, in document
/// order.
pub proof fn lemma_extract_all_ok(
    nodes: Seq<RawNode>,
    source_url: Seq<char>,
    feed_title: Seq<char>,
)
    requires
        forall|j: int| is_item(nodes, j) ==> extract_item(nodes, j) is Ok,
    ensures
        extract_result(nodes, source_url, feed_title) == Ok::<Seq<FeedView>, FeedErrorView>(
            feeds_of_items(nodes, source_url, feed_title, 0),
        ),
        extract_result(nodes, source_url, feed_title)->Ok_0.len() == item_count(nodes, 0),
{
    lemma_extract_from_all_ok(nodes, source_url, feed_title, 0);
    lemma_feeds_of_items_len(nodes, source_url, feed_title, 0);
}

proof fn lemma_extract_from_fail(
    nodes: Seq<RawNode>,
    source_url: Seq<char>,
    feed_title: Seq<char>,
    k: int,
    j: int,
)
    requires
        0 <= k <= j,
        is_item(nodes, j),
        extract_item(nodes, j) is Err,
        forall|t: int| k <= t < j && is_item(nodes, t) ==> extract_item(nodes, t) is Ok,
    ensures
        extract_from(nodes, source_url, feed_title, k) == Err::<Seq<FeedView>, FeedErrorView>(
            extract_item(nodes, j)->Err_0,
        ),
    decreases j - k,
{
    if k < j {
        lemma_extract_from_fail(nodes, source_url, feed_title, k + 1, j);
    }
}

/// Law: the first item block, in document order, that misses a mandatory
/// field fails the whole page's extraction with that error; no partial
/// records are returned.
pub proof fn lemma_extract_fail_fast(
    nodes: Seq<RawNode>,
    source_url: Seq<char>,
    feed_title: Seq<char>,
    j: int,
)
    requires
        0 <= j,
        is_item(nodes, j),
        extract_item(nodes, j) is Err,
        forall|t: int| 0 <= t < j && is_item(nodes, t) ==> extract_item(nodes, t) is Ok,
    ensures
        extract_result(nodes, source_url, feed_title) == Err::<Seq<FeedView>, FeedErrorView>(
            extract_item(nodes, j)->Err_0,
        ),
{
    lemma_extract_from_fail(nodes, source_url, feed_title, 0, j);
}

/// Whether some node below `i` meets marker `m`.
pub open spec fn has_marker(nodes: Seq<RawNode>, i: int, m: MarkerSpec) -> bool {
    exists|j: int|
        0 <= j < nodes.len() && is_descendant(nodes, j, i) && marker_matches(nodes[j], m)
}

/// Whether `p` is the first node below `i`, in document order, meeting `m`.
pub open spec fn first_marker(nodes: Seq<RawNode>, i: int, m: MarkerSpec, p: int) -> bool {
    &&& 0 <= p < nodes.len()
    &&& is_descendant(nodes, p, i) && marker_matches(nodes[p], m)
    &&& forall|j: int|
        0 <= j < p ==> !(is_descendant(nodes, j, i) && marker_matches(nodes[j], m))
}

proof fn lemma_find_from_props(nodes: Seq<RawNode>, scope: int, m: MarkerSpec, k: int)
    requires
        0 <= k,
    ensures
        match find_from(nodes, scope, m, k) {
            Some(p) => k <= p < nodes.len() && is_descendant(nodes, p, scope) && marker_matches(
                nodes[p],
                m,
            ) && forall|j: int|
                k <= j < p ==> !(is_descendant(nodes, j, scope) && marker_matches(nodes[j], m)),
            None => forall|j: int|
                k <= j < nodes.len() ==> !(is_descendant(nodes, j, scope) && marker_matches(
                    nodes[j],
                    m,
                )),
        },
    decreases nodes.len() - k,
{
    if 0 <= k < nodes.len() {
        if !(is_descendant(nodes, k, scope) && marker_matches(nodes[k], m)) {
            lemma_find_from_props(nodes, scope, m, k + 1);
        }
    }
}

/// Law: the optional label follows a fixed priority: the text of the first
/// price-marker node when one exists; else the text of the first
/// series-marker node when one exists; else nothing.
pub proof fn lemma_price_policy(nodes: Seq<RawNode>, i: int)
    ensures
        has_marker(nodes, i, MarkerSpec::ByClass("book-price"@)) ==> (exists|p: int|
            first_marker(nodes, i, MarkerSpec::ByClass("book-price"@), p) && price_of(nodes, i)
                == Some(crate::dom::text_of(nodes, p))),
        !has_marker(nodes, i, MarkerSpec::ByClass("book-price"@)) && has_marker(
            nodes,
            i,
            MarkerSpec::ByClass("book-series"@),
        ) ==> (exists|p: int|
            first_marker(nodes, i, MarkerSpec::ByClass("book-series"@), p) && price_of(nodes, i)
                == Some(crate::dom::text_of(nodes, p))),
        !has_marker(nodes, i, MarkerSpec::ByClass("book-price"@)) && !has_marker(
            nodes,
            i,
            MarkerSpec::ByClass("book-series"@),
        ) ==> price_of(nodes, i) is None,
{
    lemma_find_from_props(nodes, i, MarkerSpec::ByClass("book-price"@), 0);
    lemma_find_from_props(nodes, i, MarkerSpec::ByClass("book-series"@), 0);
    match find_in(nodes, i, MarkerSpec::ByClass("book-price"@)) {
        Some(p) => {
            assert(first_marker(nodes, i, MarkerSpec::ByClass("book-price"@), p));
        },
        None => {
            match find_in(nodes, i, MarkerSpec::ByClass("book-series"@)) {
                Some(p) => {
                    assert(first_marker(nodes, i, MarkerSpec::ByClass("book-series"@), p));
                },
                None => {},
            }
        },
    }
}

/// Law: the identifier is a pure function of the item link: every
/// successfully extracted item's identifier is its link itself, so items
/// sharing a link share an identifier.
pub proof fn lemma_guid_of_link(
    nodes1: Seq<RawNode>,
    i1: int,
    nodes2: Seq<RawNode>,
    i2: int,
)
    requires
        extract_item(nodes1, i1) is Ok,
        extract_item(nodes2, i2) is Ok,
        extract_item(nodes1, i1)->Ok_0.link == extract_item(nodes2, i2)->Ok_0.link,
    ensures
        extract_item(nodes1, i1)->Ok_0.guid == extract_item(nodes1, i1)->Ok_0.link,
        extract_item(nodes1, i1)->Ok_0.guid == extract_item(nodes2, i2)->Ok_0.guid,
{
}

/// The first position at or after `k` holding character `c`.
pub open spec fn scan_to(s: Seq<char>, k: int, c: char) -> Option<int>
    decreases s.len() - k,
{
    if !(0 <= k < s.len()) {
        None
    } else if s[k] == c {
        Some(k)
    } else {
        scan_to(s, k + 1, c)
    }
}

/// The fields read back out of a synthesized body.
pub struct BodyParts {
    pub thumb: Seq<char>,
    pub author: Seq<char>,
    pub shop: Seq<char>,
    pub price: Option<Seq<char>>,
}

/// Decodes a synthesized body: the image reference between the quotes,
/// then the author and shop text blocks, then the optional price block.
pub open spec fn decode_body(b: Seq<char>) -> Option<BodyParts> {
    if b.len() < 10 || b.take(10) != "<img src=\""@ {
        None
    } else {
        match scan_to(b, 10, '"') {
            None => None,
            Some(q) => {
                if !(q + 6 <= b.len() && b.subrange(q, q + 6) == "\"/><p>"@) {
                    None
                } else {
                    match scan_to(b, q + 6, '<') {
                        None => None,
                        Some(e1) => {
                            if !(e1 + 7 <= b.len() && b.subrange(e1, e1 + 7) == "</p><p>"@) {
                                None
                            } else {
                                match scan_to(b, e1 + 7, '<') {
                                    None => None,
                                    Some(e2) => decode_tail(b, q, e1, e2),
                                }
                            }
                        },
                    }
                }
            },
        }
    }
}

/// The tail of the decode: after the shop block ends at `e2`, either the
/// closing tag ends the body, or one more paragraph holds the price.
pub open spec fn decode_tail(b: Seq<char>, q: int, e1: int, e2: int) -> Option<BodyParts> {
    let thumb = b.subrange(10, q);
    let author = b.subrange(q + 6, e1);
    let shop = b.subrange(e1 + 7, e2);
    if e2 + 4 == b.len() && b.subrange(e2, e2 + 4) == "</p>"@ {
        Some(BodyParts { thumb, author, shop, price: None })
    } else if e2 + 7 <= b.len() && b.subrange(e2, e2 + 7) == "</p><p>"@ {
        match scan_to(b, e2 + 7, '<') {
            None => None,
            Some(e3) => {
                if e3 + 4 == b.len() && b.subrange(e3, e3 + 4) == "</p>"@ {
                    Some(
                        BodyParts {
                            thumb,
                            author,
                            shop,
                            price: Some(b.subrange(e2 + 7, e3)),
                        },
                    )
                } else {
                    None
                }
            },
        }
    } else {
        None
    }
}

proof fn lemma_scan_exact(s: Seq<char>, k: int, c: char, t: int)
    requires
        0 <= k <= t < s.len(),
        s[t] == c,
        forall|j: int| k <= j < t ==> s[j] != c,
    ensures
        scan_to(s, k, c) == Some(t),
    decreases t - k,
{
    if k < t {
        lemma_scan_exact(s, k + 1, c, t);
    }
}

/// Law: decoding a synthesized body recovers the thumbnail reference, the
/// author and shop text blocks, and the price text when present, in that
/// order.  Fields holding the markup delimiters themselves are out: a
/// quote inside the thumbnail URL, or a `<` inside author, shop or price,
/// breaks the shape.
pub proof fn lemma_body_round_trip(
    thumb: Seq<char>,
    author: Seq<char>,
    shop: Seq<char>,
    price: Option<Seq<char>>,
)
    requires
        forall|i: int| 0 <= i < thumb.len() ==> thumb[i] != '"',
        forall|i: int| 0 <= i < author.len() ==> author[i] != '<',
        forall|i: int| 0 <= i < shop.len() ==> shop[i] != '<',
        price matches Some(p) ==> forall|i: int| 0 <= i < p.len() ==> p[i] != '<',
    ensures
        decode_body(body_html(thumb, author, shop, price)) == Some(
            BodyParts { thumb, author, shop, price },
        ),
{
    reveal_strlit("<img src=\"");
    reveal_strlit("\"/><p>");
    reveal_strlit("</p><p>");
    reveal_strlit("</p>");
    reveal_strlit("<p>");
    let b = body_html(thumb, author, shop, price);
    let q = 10 + thumb.len() as int;
    let e1 = q + 6 + author.len() as int;
    let e2 = e1 + 7 + shop.len() as int;
    assert(b.take(10) =~= "<img src=\""@);
    assert forall|j: int| 10 <= j < q implies b[j] != '"' by {
        assert(b[j] == thumb[j - 10]);
    }
    assert(b[q] == '"');
    lemma_scan_exact(b, 10, '"', q);
    assert(b.subrange(q, q + 6) =~= "\"/><p>"@);
    assert forall|j: int| q + 6 <= j < e1 implies b[j] != '<' by {
        assert(b[j] == author[j - (q + 6)]);
    }
    assert(b[e1] == '<');
    lemma_scan_exact(b, q + 6, '<', e1);
    assert(b.subrange(e1, e1 + 7) =~= "</p><p>"@);
    assert forall|j: int| e1 + 7 <= j < e2 implies b[j] != '<' by {
        assert(b[j] == shop[j - (e1 + 7)]);
    }
    assert(b[e2] == '<');
    lemma_scan_exact(b, e1 + 7, '<', e2);
    assert(b.subrange(10, q) =~= thumb);
    assert(b.subrange(q + 6, e1) =~= author);
    assert(b.subrange(e1 + 7, e2) =~= shop);
    match price {
        None => {
            assert(e2 + 4 == b.len());
            assert(b.subrange(e2, e2 + 4) =~= "</p>"@);
        },
        Some(p) => {
            let e3 = e2 + 7 + p.len() as int;
            assert(b.subrange(e2, e2 + 7) =~= "</p><p>"@);
            assert forall|j: int| e2 + 7 <= j < e3 implies b[j] != '<' by {
                assert(b[j] == p[j - (e2 + 7)]);
            }
            assert(b[e3] == '<');
            lemma_scan_exact(b, e2 + 7, '<', e3);
            assert(e3 + 4 == b.len());
            assert(b.subrange(e3, e3 + 4) =~= "</p>"@);
            assert(b.subrange(e2 + 7, e3) =~= p);
        },
    }
}

/// Undoes the JSON escape of a quote or a backslash; a string holding a
/// bare quote or an unknown escape does not decode.
pub open spec fn json_unescape(s: Seq<char>) -> Option<Seq<char>>
    decreases s.len(),
{
    if s.len() == 0 {
        Some(Seq::empty())
    } else if s[0] == '\\' {
        if s.len() >= 2 && s[1] == '"' {
            match json_unescape(s.skip(2)) {
                Some(r) => Some(seq!['"'] + r),
                None => None,
            }
        } else if s.len() >= 2 && s[1] == '\\' {
            match json_unescape(s.skip(2)) {
                Some(r) => Some(seq!['\\'] + r),
                None => None,
            }
        } else {
            None
        }
    } else if s[0] == '"' {
        None
    } else {
        match json_unescape(s.skip(1)) {
            Some(r) => Some(seq![s[0]] + r),
            None => None,
        }
    }
}

/// The position of the quote that closes a JSON string whose content
/// starts at `k`: escape pairs are stepped over, so an escaped quote does
/// not end the string.
pub open spec fn scan_str_end(s: Seq<char>, k: int) -> Option<int>
    decreases s.len() - k,
{
    if !(0 <= k < s.len()) {
        None
    } else if s[k] == '"' {
        Some(k)
    } else if s[k] == '\\' {
        if k + 2 <= s.len() {
            scan_str_end(s, k + 2)
        } else {
            None
        }
    } else {
        scan_str_end(s, k + 1)
    }
}

/// Scanning steps over exactly the escape of `v` when a closing quote
/// follows it.
proof fn lemma_scan_over_escape(b: Seq<char>, k: int, v: Seq<char>)
    requires
        0 <= k,
        k + json_escape(v).len() < b.len(),
        b.subrange(k, k + json_escape(v).len()) == json_escape(v),
        b[k + json_escape(v).len()] == '"',
    ensures
        scan_str_end(b, k) == Some(k + json_escape(v).len()),
    decreases v.len(),
{
    let e = json_escape(v);
    assert forall|j: int| 0 <= j < e.len() implies #[trigger] b[k + j] == e[j] by {
        assert(b.subrange(k, k + e.len() as int)[j] == b[k + j]);
    }
    if v.len() == 0 {
        assert(b[k + 0] == '"');
    } else {
        let e0 = esc_char(v[0]);
        let erest = json_escape(v.drop_first());
        assert(e == e0 + erest);
        assert(e.len() == e0.len() + erest.len());
        assert(b.subrange(k + e0.len(), k + e.len() as int) =~= erest) by {
            assert forall|j: int|
                0 <= j < erest.len() implies b.subrange(k + e0.len(), k + e.len() as int)[j]
                == erest[j] by {
                let jj = e0.len() + j;
                assert(b[k + jj] == e[jj]);
                assert(e[jj] == erest[j]);
                assert(b.subrange(k + e0.len(), k + e.len() as int)[j] == b[k + e0.len() + j]);
            }
        }
        lemma_scan_over_escape(b, k + e0.len() as int, v.drop_first());
        if v[0] == '"' || v[0] == '\\' {
            assert(b[k + 0] == e0[0] && b[k + 1] == e0[1]);
            assert(b[k] == '\\');
            assert(scan_str_end(b, k) == scan_str_end(b, k + 2));
        } else if (v[0] as u32) < 32 {
            assert(b[k + 0] == e0[0] && b[k + 1] == e0[1] && b[k + 2] == e0[2] && b[k + 3]
                == e0[3] && b[k + 4] == e0[4] && b[k + 5] == e0[5]);
            assert(b[k] == '\\');
            assert(forall|d: nat| d < 16 ==> hex_digit(d) != '"' && hex_digit(d) != '\\');
            assert(scan_str_end(b, k) == scan_str_end(b, k + 2));
            assert(scan_str_end(b, k + 2) == scan_str_end(b, k + 3));
            assert(scan_str_end(b, k + 3) == scan_str_end(b, k + 4));
            assert(scan_str_end(b, k + 4) == scan_str_end(b, k + 5));
            assert(scan_str_end(b, k + 5) == scan_str_end(b, k + 6));
        } else {
            assert(b[k + 0] == e0[0]);
            assert(b[k] == v[0]);
            assert(scan_str_end(b, k) == scan_str_end(b, k + 1));
        }
    }
}

/// Decodes the JSON string literal that starts at `k`: its decoded value
/// and the position just past the closing quote.
pub open spec fn decode_json_str(b: Seq<char>, k: int) -> Option<(Seq<char>, int)> {
    if !(0 <= k < b.len() && b[k] == '"') {
        None
    } else {
        match scan_str_end(b, k + 1) {
            None => None,
            Some(e) => match json_unescape(b.subrange(k + 1, e)) {
                Some(v) => Some((v, e + 1)),
                None => None,
            },
        }
    }
}

/// A JSON string literal standing at `k` decodes back to its value, for a
/// control-free value.
proof fn lemma_decode_str_at(b: Seq<char>, k: int, v: Seq<char>)
    requires
        0 <= k,
        k + json_str(v).len() <= b.len(),
        b.subrange(k, k + json_str(v).len()) == json_str(v),
        forall|i: int| 0 <= i < v.len() ==> (v[i] as u32) >= 32,
    ensures
        decode_json_str(b, k) == Some((v, k + json_str(v).len())),
{
    let e = json_escape(v);
    let t = json_str(v);
    let l = t.len() as int;
    assert(l == e.len() + 2);
    assert forall|j: int| 0 <= j < l implies #[trigger] b[k + j] == t[j] by {
        assert(b.subrange(k, k + l)[j] == b[k + j]);
    }
    assert((seq!['"'] + e)[0] == '"');
    assert(t[0] == '"');
    assert(b[k + 0] == t[0]);
    assert(b[k] == '"');
    assert(t[l - 1] == '"');
    assert(b[k + (l - 1)] == t[l - 1]);
    assert(b.subrange(k + 1, k + 1 + e.len()) =~= e) by {
        assert forall|j: int|
            0 <= j < e.len() implies b.subrange(k + 1, k + 1 + e.len() as int)[j] == e[j] by {
            assert(b.subrange(k + 1, k + 1 + e.len() as int)[j] == b[k + 1 + j]);
            assert(b[k + (1 + j)] == t[1 + j]);
            assert((seq!['"'] + e)[1 + j] == e[j]);
            assert(t[1 + j] == (seq!['"'] + e)[1 + j]);
        }
    }
    lemma_scan_over_escape(b, k + 1, v);
    assert(scan_str_end(b, k + 1) == Some(k + 1 + e.len()));
    lemma_escape_round_trip(v);
}

/// A string free of control characters.
pub open spec fn str_clean(s: Seq<char>) -> bool {
    forall|i: int| 0 <= i < s.len() ==> (s[i] as u32) >= 32
}

/// The eight fields of one wire record, as parsed back from its JSON form.
pub struct WireRecord {
    pub feedlink: Seq<char>,
    pub feedtitle: Seq<char>,
    pub author: Seq<char>,
    pub title: Seq<char>,
    pub body: Seq<char>,
    pub link: Seq<char>,
    pub category: Seq<char>,
    pub guid: Seq<char>,
}

/// The wire record owed for one feed record.
pub open spec fn wire_of(f: FeedView) -> WireRecord {
    WireRecord {
        feedlink: f.feedlink,
        feedtitle: f.feedtitle,
        author: f.author,
        title: f.title,
        body: crate::json::feed_body(f),
        link: f.link,
        category: f.category,
        guid: f.guid,
    }
}

/// Whether the literal `lit` stands at `k` of `b`.
pub open spec fn lit_at(b: Seq<char>, k: int, lit: Seq<char>) -> bool {
    0 <= k && k + lit.len() <= b.len() && b.subrange(k, k + lit.len() as int) == lit
}

/// Decodes one `"key":`-preceded string field at `k`: the decoded value
/// and the position just past its closing quote.
pub open spec fn decode_field(b: Seq<char>, k: int, key: Seq<char>) -> Option<(Seq<char>, int)> {
    if lit_at(b, k, key) {
        decode_json_str(b, k + key.len() as int)
    } else {
        None
    }
}

/// Decodes one wire-record object at `k`: its eight fields in fixed key
/// order, and the position just past the closing brace.
pub open spec fn decode_feed_json(b: Seq<char>, k: int) -> Option<(WireRecord, int)> {
    match decode_field(b, k, "{\"feedlink\":"@) {
        None => None,
        Some((feedlink, p1)) => match decode_field(b, p1, ",\"feedtitle\":"@) {
            None => None,
            Some((feedtitle, p2)) => match decode_field(b, p2, ",\"author\":"@) {
                None => None,
                Some((author, p3)) => match decode_field(b, p3, ",\"title\":"@) {
                    None => None,
                    Some((title, p4)) => match decode_field(b, p4, ",\"body\":"@) {
                        None => None,
                        Some((body, p5)) => match decode_field(b, p5, ",\"link\":"@) {
                            None => None,
                            Some((link, p6)) => match decode_field(b, p6, ",\"category\":"@) {
                                None => None,
                                Some((category, p7)) => match decode_field(b, p7, ",\"guid\":"@) {
                                    None => None,
                                    Some((guid, p8)) => {
                                        if lit_at(b, p8, "}"@) {
                                            Some(
                                                (
                                                    WireRecord {
                                                        feedlink,
                                                        feedtitle,
                                                        author,
                                                        title,
                                                        body,
                                                        link,
                                                        category,
                                                        guid,
                                                    },
                                                    p8 + 1,
                                                ),
                                            )
                                        } else {
                                            None
                                        }
                                    },
                                },
                            },
                        },
                    },
                },
            },
        },
    }
}

/// A subrange of an equal subrange is the segment itself.
proof fn lemma_subseg(b: Seq<char>, k: int, t: Seq<char>, off: int, seg: Seq<char>)
    requires
        0 <= k,
        k + t.len() <= b.len(),
        b.subrange(k, k + t.len() as int) == t,
        0 <= off,
        off + seg.len() <= t.len(),
        t.subrange(off, off + seg.len() as int) == seg,
    ensures
        b.subrange(k + off, k + off + seg.len() as int) == seg,
{
    assert(b.subrange(k + off, k + off + seg.len() as int) =~= seg) by {
        assert forall|j: int|
            0 <= j < seg.len() implies b.subrange(k + off, k + off + seg.len() as int)[j]
            == seg[j] by {
            assert(t.subrange(off, off + seg.len() as int)[j] == t[off + j]);
            assert(b.subrange(k, k + t.len() as int)[off + j] == b[k + (off + j)]);
            assert(b.subrange(k + off, k + off + seg.len() as int)[j] == b[k + off + j]);
        }
    }
}

/// Splitting a concatenation at the seam recovers both halves.
proof fn lemma_concat_sub(x: Seq<char>, y: Seq<char>)
    ensures
        (x + y).subrange(0, x.len() as int) == x,
        (x + y).subrange(x.len() as int, (x + y).len() as int) == y,
{
    assert((x + y).subrange(0, x.len() as int) =~= x);
    assert((x + y).subrange(x.len() as int, (x + y).len() as int) =~= y);
}

/// One key and its string value decode at `k` when they stand there.
proof fn lemma_decode_field_at(b: Seq<char>, k: int, key: Seq<char>, v: Seq<char>)
    requires
        0 <= k,
        k + key.len() + json_str(v).len() <= b.len(),
        b.subrange(k, k + key.len() as int) == key,
        b.subrange(k + key.len(), k + key.len() + json_str(v).len() as int) == json_str(v),
        str_clean(v),
    ensures
        decode_field(b, k, key) == Some((v, k + key.len() + json_str(v).len())),
{
    lemma_decode_str_at(b, k + key.len() as int, v);
}

/// A record whose fields are all free of control characters.
pub open spec fn feed_clean(f: FeedView) -> bool {
    &&& str_clean(f.feedlink)
    &&& str_clean(f.feedtitle)
    &&& str_clean(f.author)
    &&& str_clean(f.title)
    &&& str_clean(f.thumb_url)
    &&& str_clean(f.link)
    &&& str_clean(f.category)
    &&& str_clean(f.guid)
    &&& str_clean(f.shop)
    &&& match f.price {
        Some(p) => str_clean(p),
        None => true,
    }
}

/// A clean record's synthesized body is clean too.
proof fn lemma_body_clean(f: FeedView)
    requires
        feed_clean(f),
    ensures
        str_clean(crate::json::feed_body(f)),
{
    reveal_strlit("<img src=\"");
    reveal_strlit("\"/><p>");
    reveal_strlit("</p><p>");
    reveal_strlit("</p>");
    reveal_strlit("<p>");
    assert(str_clean("<img src=\""@));
    assert(str_clean("\"/><p>"@));
    assert(str_clean("</p><p>"@));
    assert(str_clean("</p>"@));
    assert(str_clean("<p>"@));
    match f.price {
        Some(p) => {
            assert(str_clean("<p>"@ + p + "</p>"@));
        },
        None => {
            assert(str_clean(Seq::<char>::empty()));
        },
    }
    assert(str_clean("<img src=\""@ + f.thumb_url));
    assert(str_clean("<img src=\""@ + f.thumb_url + "\"/><p>"@));
    assert(str_clean("<img src=\""@ + f.thumb_url + "\"/><p>"@ + f.author));
    assert(str_clean("<img src=\""@ + f.thumb_url + "\"/><p>"@ + f.author + "</p><p>"@));
    assert(str_clean(
        "<img src=\""@ + f.thumb_url + "\"/><p>"@ + f.author + "</p><p>"@ + f.shop,
    ));
    assert(str_clean(
        "<img src=\""@ + f.thumb_url + "\"/><p>"@ + f.author + "</p><p>"@ + f.shop + "</p>"@,
    ));
}

/// One record of the batch text, standing at `k` of `b`, decodes to its
/// wire record.
proof fn lemma_decode_feed_at(b: Seq<char>, k: int, f: FeedView)
    requires
        0 <= k,
        k + feed_json(f).len() <= b.len(),
        b.subrange(k, k + feed_json(f).len() as int) == feed_json(f),
        feed_clean(f),
        str_clean(crate::json::feed_body(f)),
    ensures
        decode_feed_json(b, k) == Some((wire_of(f), k + feed_json(f).len())),
{
    reveal_strlit("}");
    let s1 = "{\"feedlink\":"@;
    let s2 = json_str(f.feedlink);
    let s3 = ",\"feedtitle\":"@;
    let s4 = json_str(f.feedtitle);
    let s5 = ",\"author\":"@;
    let s6 = json_str(f.author);
    let s7 = ",\"title\":"@;
    let s8 = json_str(f.title);
    let s9 = ",\"body\":"@;
    let s10 = json_str(crate::json::feed_body(f));
    let s11 = ",\"link\":"@;
    let s12 = json_str(f.link);
    let s13 = ",\"category\":"@;
    let s14 = json_str(f.category);
    let s15 = ",\"guid\":"@;
    let s16 = json_str(f.guid);
    let s17 = "}"@;
    let a1 = s1;
    let a2 = a1 + s2;
    let a3 = a2 + s3;
    let a4 = a3 + s4;
    let a5 = a4 + s5;
    let a6 = a5 + s6;
    let a7 = a6 + s7;
    let a8 = a7 + s8;
    let a9 = a8 + s9;
    let a10 = a9 + s10;
    let a11 = a10 + s11;
    let a12 = a11 + s12;
    let a13 = a12 + s13;
    let a14 = a13 + s14;
    let a15 = a14 + s15;
    let a16 = a15 + s16;
    let a17 = a16 + s17;
    assert(feed_json(f) == a17);
    lemma_concat_sub(a16, s17);
    lemma_subseg(b, k, a17, 0, a16);
    lemma_subseg(b, k, a17, a16.len() as int, s17);
    lemma_concat_sub(a15, s16);
    lemma_subseg(b, k, a16, 0, a15);
    lemma_subseg(b, k, a16, a15.len() as int, s16);
    lemma_concat_sub(a14, s15);
    lemma_subseg(b, k, a15, 0, a14);
    lemma_subseg(b, k, a15, a14.len() as int, s15);
    lemma_concat_sub(a13, s14);
    lemma_subseg(b, k, a14, 0, a13);
    lemma_subseg(b, k, a14, a13.len() as int, s14);
    lemma_concat_sub(a12, s13);
    lemma_subseg(b, k, a13, 0, a12);
    lemma_subseg(b, k, a13, a12.len() as int, s13);
    lemma_concat_sub(a11, s12);
    lemma_subseg(b, k, a12, 0, a11);
    lemma_subseg(b, k, a12, a11.len() as int, s12);
    lemma_concat_sub(a10, s11);
    lemma_subseg(b, k, a11, 0, a10);
    lemma_subseg(b, k, a11, a10.len() as int, s11);
    lemma_concat_sub(a9, s10);
    lemma_subseg(b, k, a10, 0, a9);
    lemma_subseg(b, k, a10, a9.len() as int, s10);
    lemma_concat_sub(a8, s9);
    lemma_subseg(b, k, a9, 0, a8);
    lemma_subseg(b, k, a9, a8.len() as int, s9);
    lemma_concat_sub(a7, s8);
    lemma_subseg(b, k, a8, 0, a7);
    lemma_subseg(b, k, a8, a7.len() as int, s8);
    lemma_concat_sub(a6, s7);
    lemma_subseg(b, k, a7, 0, a6);
    lemma_subseg(b, k, a7, a6.len() as int, s7);
    lemma_concat_sub(a5, s6);
    lemma_subseg(b, k, a6, 0, a5);
    lemma_subseg(b, k, a6, a5.len() as int, s6);
    lemma_concat_sub(a4, s5);
    lemma_subseg(b, k, a5, 0, a4);
    lemma_subseg(b, k, a5, a4.len() as int, s5);
    lemma_concat_sub(a3, s4);
    lemma_subseg(b, k, a4, 0, a3);
    lemma_subseg(b, k, a4, a3.len() as int, s4);
    lemma_concat_sub(a2, s3);
    lemma_subseg(b, k, a3, 0, a2);
    lemma_subseg(b, k, a3, a2.len() as int, s3);
    lemma_concat_sub(a1, s2);
    lemma_subseg(b, k, a2, 0, a1);
    lemma_subseg(b, k, a2, a1.len() as int, s2);
    lemma_decode_field_at(b, k, s1, f.feedlink);
    lemma_decode_field_at(b, k + a2.len(), s3, f.feedtitle);
    lemma_decode_field_at(b, k + a4.len(), s5, f.author);
    lemma_decode_field_at(b, k + a6.len(), s7, f.title);
    lemma_decode_field_at(b, k + a8.len(), s9, crate::json::feed_body(f));
    lemma_decode_field_at(b, k + a10.len(), s11, f.link);
    lemma_decode_field_at(b, k + a12.len(), s13, f.category);
    lemma_decode_field_at(b, k + a14.len(), s15, f.guid);
    assert(lit_at(b, k + a16.len(), s17));
    assert(s17.len() == 1);
}

/// Law (the dry-run parse-back, one record deep): the wire form of one
/// record, decoded as JSON, yields exactly the record's eight fields, the
/// synthesized body among them, for a record free of control characters
/// (their escapes are not taken back by this partial decoder).
pub proof fn lemma_record_parse_back(f: FeedView)
    requires
        feed_clean(f),
    ensures
        decode_feed_json(feed_json(f), 0) == Some((wire_of(f), feed_json(f).len() as int)),
{
    lemma_body_clean(f);
    assert(feed_json(f).subrange(0, feed_json(f).len() as int) =~= feed_json(f));
    lemma_decode_feed_at(feed_json(f), 0, f);
}

/// The batch text from record `i` on: that record, and each later one
/// preceded by its comma.
pub open spec fn records_rest(fs: Seq<FeedView>, i: int) -> Seq<char>
    decreases fs.len() - i,
{
    if !(0 <= i < fs.len()) {
        Seq::empty()
    } else {
        ","@ + feed_json(fs[i]) + records_rest(fs, i + 1)
    }
}

/// The batch text beginning at record `i`: the record itself, then the
/// rest with their separating commas.
pub open spec fn records_text(fs: Seq<FeedView>, i: int) -> Seq<char> {
    feed_json(fs[i]) + records_rest(fs, i + 1)
}

/// The wire records owed for the batch from `i` on.
pub open spec fn records_of(fs: Seq<FeedView>, i: int) -> Seq<WireRecord>
    decreases fs.len() - i,
{
    if !(0 <= i < fs.len()) {
        Seq::empty()
    } else {
        seq![wire_of(fs[i])] + records_of(fs, i + 1)
    }
}

proof fn lemma_prefix_rest(fs: Seq<FeedView>, k: int)
    requires
        1 <= k <= fs.len(),
    ensures
        feeds_json_prefix(fs, fs.len() as int) == feeds_json_prefix(fs, k) + records_rest(fs, k),
    decreases fs.len() - k,
{
    let n = fs.len() as int;
    if k == n {
        assert(feeds_json_prefix(fs, k) + records_rest(fs, k) =~= feeds_json_prefix(fs, k));
    } else {
        lemma_prefix_rest(fs, k + 1);
        assert(feeds_json_prefix(fs, k) + records_rest(fs, k) =~= feeds_json_prefix(fs, k + 1)
            + records_rest(fs, k + 1));
    }
}

proof fn lemma_seq_concat_empty(x: Seq<char>)
    ensures
        Seq::<char>::empty() + x == x,
        x + Seq::<char>::empty() == x,
{
    assert(Seq::<char>::empty() + x =~= x);
    assert(x + Seq::<char>::empty() =~= x);
}

proof fn lemma_prefix_head(fs: Seq<FeedView>)
    requires
        fs.len() >= 1,
    ensures
        feeds_json_prefix(fs, fs.len() as int) == records_text(fs, 0),
{
    let fj = feed_json(fs[0]);
    let e = Seq::<char>::empty();
    lemma_seq_concat_empty(fj);
    lemma_seq_concat_empty(e);
    assert(feeds_json_prefix(fs, 0) == e);
    assert(feeds_json_prefix(fs, 1) == (e + e) + fj);
    assert((e + e) + fj == e + fj);
    assert(feeds_json_prefix(fs, 1) == fj);
    if fs.len() == 1 {
        assert(records_rest(fs, 1) == e);
        assert(records_text(fs, 0) == fj + records_rest(fs, 1));
        assert(fj + records_rest(fs, 1) == fj);
    } else {
        lemma_prefix_rest(fs, 1);
    }
}

/// Decodes the comma-separated records that start at `k`: the records and
/// the position just past the last one.
pub open spec fn decode_records(b: Seq<char>, k: int) -> Option<(Seq<WireRecord>, int)>
    decreases b.len() - k,
{
    match decode_feed_json(b, k) {
        None => None,
        Some((r, k2)) => {
            if !(k < k2 <= b.len()) {
                None
            } else if k2 < b.len() && b[k2] == ',' {
                match decode_records(b, k2 + 1) {
                    Some((rs, k3)) => Some((seq![r] + rs, k3)),
                    None => None,
                }
            } else {
                Some((seq![r], k2))
            }
        },
    }
}

/// Decodes a whole rendered batch: a JSON array of wire records.
pub open spec fn decode_feeds_json(b: Seq<char>) -> Option<Seq<WireRecord>> {
    if b.len() >= 2 && b[0] == '[' && b[b.len() - 1] == ']' {
        if b.len() == 2 {
            Some(Seq::empty())
        } else {
            match decode_records(b, 1) {
                Some((rs, k2)) => {
                    if k2 == b.len() - 1 {
                        Some(rs)
                    } else {
                        None
                    }
                },
                None => None,
            }
        }
    } else {
        None
    }
}

#[verifier::rlimit(100)]
proof fn lemma_decode_records_at(b: Seq<char>, k: int, fs: Seq<FeedView>, i: int)
    requires
        0 <= i < fs.len(),
        forall|j: int| 0 <= j < fs.len() ==> feed_clean(#[trigger] fs[j]),
        0 <= k,
        k + records_text(fs, i).len() < b.len(),
        b.subrange(k, k + records_text(fs, i).len() as int) == records_text(fs, i),
        b[k + records_text(fs, i).len()] == ']',
    ensures
        decode_records(b, k) == Some(
            (records_of(fs, i), k + records_text(fs, i).len()),
        ),
    decreases fs.len() - i,
{
    reveal_strlit(",");
    let t = records_text(fs, i);
    let fj = feed_json(fs[i]);
    let rr = records_rest(fs, i + 1);
    lemma_concat_sub(fj, rr);
    lemma_subseg(b, k, t, 0, fj);
    lemma_body_clean(fs[i]);
    lemma_decode_feed_at(b, k, fs[i]);
    let k2 = k + fj.len() as int;
    if i + 1 < fs.len() {
        let t2 = records_text(fs, i + 1);
        assert(rr =~= ","@ + t2);
        lemma_subseg(b, k, t, fj.len() as int, rr);
        lemma_concat_sub(","@, t2);
        lemma_subseg(b, k2, ","@ + t2, 0, ","@);
        lemma_subseg(b, k2, ","@ + t2, 1, t2);
        assert(b.subrange(k2, k2 + 1)[0] == b[k2 + 0]);
        assert(("," @)[0] == ',');
        assert(b[k2] == ',');
        lemma_decode_records_at(b, k2 + 1, fs, i + 1);
        assert(seq![wire_of(fs[i])] + records_of(fs, i + 1) == records_of(fs, i));
    } else {
        reveal_with_fuel(records_of, 2);
        assert(rr =~= Seq::<char>::empty());
        assert(t =~= fj);
        assert(b[k2] == ']');
        assert(records_of(fs, i + 1) =~= Seq::<WireRecord>::empty());
        assert(seq![wire_of(fs[i])] =~= records_of(fs, i));
    }
}

/// Law (the dry-run parse-back): the rendered batch, decoded as a JSON
/// array, yields exactly one wire record per feed record, in order, each
/// holding that record's eight fields — for records free of control
/// characters, whose escapes this partial decoder does not take back.
pub proof fn lemma_render_parse_back(fs: Seq<FeedView>)
    requires
        forall|j: int| 0 <= j < fs.len() ==> feed_clean(#[trigger] fs[j]),
    ensures
        decode_feeds_json(crate::json::feeds_json(fs)) == Some(records_of(fs, 0)),
{
    reveal_strlit("[");
    reveal_strlit("]");
    reveal_strlit("{\"feedlink\":");
    let b = crate::json::feeds_json(fs);
    let n = fs.len() as int;
    if n == 0 {
        assert(b =~= seq!['[', ']']);
        assert(b[0] == '[' && b[1] == ']');
        assert(records_of(fs, 0) =~= Seq::<WireRecord>::empty());
    } else {
        lemma_prefix_head(fs);
        let t = records_text(fs, 0);
        assert(b == "["@ + feeds_json_prefix(fs, n) + "]"@);
        assert(b == ("["@ + t) + "]"@);
        lemma_concat_sub("["@ + t, "]"@);
        lemma_concat_sub("["@, t);
        lemma_subseg(b, 0, ("["@ + t), 0, "["@);
        lemma_subseg(b, 0, ("["@ + t), 1, t);
        assert(b.subrange(0, 1)[0] == b[0int + 0]);
        assert(b[0] == '[');
        assert(b.subrange(1 + t.len() as int, b.len() as int)[0] == b[1 + t.len() as int + 0]);
        assert(b[1 + t.len() as int] == ']');
        assert(feed_json(fs[0]).len() >= ("{\"feedlink\":"@).len()) by {
            assert(feed_json(fs[0]) == ("{\"feedlink\":"@ + json_str(fs[0].feedlink)
                + ",\"feedtitle\":"@ + json_str(fs[0].feedtitle) + ",\"author\":"@ + json_str(
                fs[0].author,
            ) + ",\"title\":"@ + json_str(fs[0].title) + ",\"body\":"@ + json_str(
                crate::json::feed_body(fs[0]),
            ) + ",\"link\":"@ + json_str(fs[0].link) + ",\"category\":"@ + json_str(
                fs[0].category,
            ) + ",\"guid\":"@ + json_str(fs[0].guid) + "}"@));
        }
        assert(t.len() >= 12);
        assert(b.len() == t.len() + 2);
        assert(b[b.len() - 1] == ']');
        lemma_decode_records_at(b, 1, fs, 0);
    }
}

/// Law (one part of the dry-run parse-back): JSON-unescaping inverts the
/// JSON escape, for strings free of control characters (a control
/// character escapes to a `\u00` form this partial decoder does not take
/// back).
pub proof fn lemma_escape_round_trip(s: Seq<char>)
    requires
        forall|i: int| 0 <= i < s.len() ==> (s[i] as u32) >= 32,
    ensures
        json_unescape(json_escape(s)) == Some(s),
    decreases s.len(),
{
    if s.len() == 0 {
    } else {
        lemma_escape_round_trip(s.drop_first());
        let e = json_escape(s);
        let rest = json_escape(s.drop_first());
        if s[0] == '"' {
            assert(e == seq!['\\', '"'] + rest);
            assert(e[0] == '\\' && e[1] == '"');
            assert(e.skip(2) =~= rest);
            assert(seq!['"'] + s.drop_first() =~= s);
        } else if s[0] == '\\' {
            assert(e == seq!['\\', '\\'] + rest);
            assert(e[0] == '\\' && e[1] == '\\');
            assert(e.skip(2) =~= rest);
            assert(seq!['\\'] + s.drop_first() =~= s);
        } else {
            assert(e == seq![s[0]] + rest);
            assert(e[0] == s[0]);
            assert(e.skip(1) =~= rest);
            assert(seq![s[0]] + s.drop_first() =~= s);
        }
    }
}

} // verus!
