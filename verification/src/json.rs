//! The feed encoder: each record becomes a flat JSON object whose `body`
//! field is synthesized HTML (an image tag for the thumbnail, a paragraph
//! each for author and shop, and one for the price label when present), and
//! a batch becomes a JSON array of such objects.  Interpolated text is not
//! HTML-escaped in the body, matching the wire format the aggregator
//! expects; string values are JSON-escaped.

use vstd::prelude::*;
use vstd::string::*;

use crate::feed::{feeds_view, Feed, FeedView};

verus! {

/// Lower-case hexadecimal digit for a value below sixteen.
pub open spec fn hex_digit(n: nat) -> char {
    if n == 0 {
        '0'
    } else if n == 1 {
        '1'
    } else if n == 2 {
        '2'
    } else if n == 3 {
        '3'
    } else if n == 4 {
        '4'
    } else if n == 5 {
        '5'
    } else if n == 6 {
        '6'
    } else if n == 7 {
        '7'
    } else if n == 8 {
        '8'
    } else if n == 9 {
        '9'
    } else if n == 10 {
        'a'
    } else if n == 11 {
        'b'
    } else if n == 12 {
        'c'
    } else if n == 13 {
        'd'
    } else if n == 14 {
        'e'
    } else {
        'f'
    }
}

/// The JSON escape of one character: quote and backslash get a backslash,
/// control characters become a `\u00` sequence, all else stands unchanged.
pub open spec fn esc_char(c: char) -> Seq<char> {
    if c == '"' {
        seq!['\\', '"']
    } else if c == '\\' {
        seq!['\\', '\\']
    } else if (c as u32) < 32 {
        seq!['\\', 'u', '0', '0', hex_digit(((c as u32) / 16) as nat), hex_digit(
            ((c as u32) % 16) as nat,
        )]
    } else {
        seq![c]
    }
}

/// The JSON escape of a string's characters.
pub open spec fn json_escape(s: Seq<char>) -> Seq<char>
    decreases s.len(),
{
    if s.len() == 0 {
        Seq::empty()
    } else {
        esc_char(s[0]) + json_escape(s.drop_first())
    }
}

/// A JSON string literal: the escaped characters between quotes.
pub open spec fn json_str(s: Seq<char>) -> Seq<char> {
    seq!['"'] + json_escape(s) + seq!['"']
}

/// The synthesized HTML body: an image tag for the thumbnail, a paragraph
/// each for author and shop, and one more for the price label when present.
pub open spec fn body_html(
    thumb: Seq<char>,
    author: Seq<char>,
    shop: Seq<char>,
    price: Option<Seq<char>>,
) -> Seq<char> {
    "<img src=\""@ + thumb + "\"/><p>"@ + author + "</p><p>"@ + shop + "</p>"@ + (match price {
        Some(p) => "<p>"@ + p + "</p>"@,
        None => Seq::empty(),
    })
}

/// The synthesized HTML body of one record.
pub open spec fn feed_body(f: FeedView) -> Seq<char> {
    body_html(f.thumb_url, f.author, f.shop, f.price)
}

/// The wire form of one record: a flat JSON object in fixed field order.
pub open spec fn feed_json(f: FeedView) -> Seq<char> {
    "{\"feedlink\":"@ + json_str(f.feedlink) + ",\"feedtitle\":"@ + json_str(f.feedtitle)
        + ",\"author\":"@ + json_str(f.author) + ",\"title\":"@ + json_str(f.title) + ",\"body\":"@
        + json_str(feed_body(f)) + ",\"link\":"@ + json_str(f.link) + ",\"category\":"@ + json_str(
        f.category,
    ) + ",\"guid\":"@ + json_str(f.guid) + "}"@
}

/// The first `k` records of the batch, joined with commas.
pub open spec fn feeds_json_prefix(fs: Seq<FeedView>, k: int) -> Seq<char>
    decreases k,
{
    if k <= 0 {
        Seq::empty()
    } else {
        feeds_json_prefix(fs, k - 1) + (if k - 1 > 0 {
            ","@
        } else {
            Seq::empty()
        }) + feed_json(fs[k - 1])
    }
}

/// The wire form of a whole batch: a JSON array of the records in order.
pub open spec fn feeds_json(fs: Seq<FeedView>) -> Seq<char> {
    "["@ + feeds_json_prefix(fs, fs.len() as int) + "]"@
}

/// Appending one character distributes over the escape.
pub proof fn lemma_escape_snoc(s: Seq<char>, c: char)
    ensures
        json_escape(s.push(c)) == json_escape(s) + esc_char(c),
    decreases s.len(),
{
    if s.len() == 0 {
        assert(s =~= Seq::<char>::empty());
        assert(s.push(c).drop_first() =~= Seq::<char>::empty());
        assert(s.push(c)[0] == c);
        assert(esc_char(c) + Seq::<char>::empty() =~= esc_char(c));
        assert(json_escape(s) + esc_char(c) =~= esc_char(c));
    } else {
        lemma_escape_snoc(s.drop_first(), c);
        assert(s.push(c).drop_first() =~= s.drop_first().push(c));
        assert(s.push(c)[0] == s[0]);
        assert(esc_char(s[0]) + (json_escape(s.drop_first()) + esc_char(c)) =~= (esc_char(s[0])
            + json_escape(s.drop_first())) + esc_char(c));
    }
}

fn hex_digit_exec(n: u32) -> (c: char)
    requires
        n < 16,
    ensures
        c == hex_digit(n as nat),
{
    if n == 0 {
        '0'
    } else if n == 1 {
        '1'
    } else if n == 2 {
        '2'
    } else if n == 3 {
        '3'
    } else if n == 4 {
        '4'
    } else if n == 5 {
        '5'
    } else if n == 6 {
        '6'
    } else if n == 7 {
        '7'
    } else if n == 8 {
        '8'
    } else if n == 9 {
        '9'
    } else if n == 10 {
        'a'
    } else if n == 11 {
        'b'
    } else if n == 12 {
        'c'
    } else if n == 13 {
        'd'
    } else if n == 14 {
        'e'
    } else {
        'f'
    }
}

/// The JSON escape of a string.
pub fn json_escape_exec(s: &str) -> (r: String)
    ensures
        r@ == json_escape(s@),
{
    let n = s.unicode_len();
    let mut r = String::new();
    let mut i: usize = 0;
    while i < n
        invariant
            n == s@.len(),
            i <= n,
            r@ == json_escape(s@.take(i as int)),
        decreases n - i,
    {
        let c = s.get_char(i);
        if c == '"' {
            r.append("\\\"");
            proof {
                reveal_strlit("\\\"");
                assert("\\\""@ =~= esc_char('"'));
            }
        } else if c == '\\' {
            r.append("\\\\");
            proof {
                reveal_strlit("\\\\");
                assert("\\\\"@ =~= esc_char('\\'));
            }
        } else {
            let code = c as u32;
            if code < 32 {
                r.append("\\u00");
                r.push(hex_digit_exec(code / 16));
                r.push(hex_digit_exec(code % 16));
                proof {
                    reveal_strlit("\\u00");
                    assert(("\\u00"@.push(hex_digit(((c as u32) / 16) as nat))).push(
                        hex_digit(((c as u32) % 16) as nat),
                    ) =~= esc_char(c));
                }
            } else {
                r.push(c);
                proof {
                    assert(json_escape(s@.take(i as int)).push(c) =~= json_escape(
                        s@.take(i as int),
                    ) + esc_char(c));
                }
            }
        }
        proof {
            assert(s@.take(i + 1) =~= s@.take(i as int).push(s@[i as int]));
            lemma_escape_snoc(s@.take(i as int), s@[i as int]);
            assert(r@ =~= json_escape(s@.take(i as int)) + esc_char(s@[i as int]));
        }
        i = i + 1;
    }
    proof {
        assert(s@.take(n as int) =~= s@);
    }
    r
}

/// A JSON string literal for `s`.
pub fn json_str_exec(s: &str) -> (r: String)
    ensures
        r@ == json_str(s@),
{
    let mut r = String::new();
    r.push('"');
    let esc = json_escape_exec(s);
    r.append(esc.as_str());
    r.push('"');
    proof {
        assert(r@ =~= json_str(s@));
    }
    r
}

/// The synthesized HTML body of one record.
pub fn body_of_feed(f: &Feed) -> (r: String)
    ensures
        r@ == feed_body(f@),
{
    let mut r = String::new();
    r.append("<img src=\"");
    r.append(f.thumb_url.as_str());
    r.append("\"/><p>");
    r.append(f.author.as_str());
    r.append("</p><p>");
    r.append(f.shop.as_str());
    r.append("</p>");
    match &f.price {
        Some(p) => {
            r.append("<p>");
            r.append(p.as_str());
            r.append("</p>");
        },
        None => {},
    }
    proof {
        assert(r@ =~= feed_body(f@));
    }
    r
}

/// The wire form of one record.
pub fn encode_feed(f: &Feed) -> (r: String)
    ensures
        r@ == feed_json(f@),
{
    let mut r = String::new();
    r.append("{\"feedlink\":");
    let s1 = json_str_exec(f.feedlink.as_str());
    r.append(s1.as_str());
    r.append(",\"feedtitle\":");
    let s2 = json_str_exec(f.feedtitle.as_str());
    r.append(s2.as_str());
    r.append(",\"author\":");
    let s3 = json_str_exec(f.author.as_str());
    r.append(s3.as_str());
    r.append(",\"title\":");
    let s4 = json_str_exec(f.title.as_str());
    r.append(s4.as_str());
    r.append(",\"body\":");
    let body = body_of_feed(f);
    let s5 = json_str_exec(body.as_str());
    r.append(s5.as_str());
    r.append(",\"link\":");
    let s6 = json_str_exec(f.link.as_str());
    r.append(s6.as_str());
    r.append(",\"category\":");
    let s7 = json_str_exec(f.category.as_str());
    r.append(s7.as_str());
    r.append(",\"guid\":");
    let s8 = json_str_exec(f.guid.as_str());
    r.append(s8.as_str());
    r.append("}");
    proof {
        assert(r@ =~= feed_json(f@));
    }
    r
}

/// The wire form of a whole batch, as the dry run prints it.
pub fn render_feeds(feeds: &Vec<Feed>) -> (r: String)
    ensures
        r@ == feeds_json(feeds_view(feeds@)),
{
    let n = feeds.len();
    let mut r = String::new();
    r.append("[");
    let mut k: usize = 0;
    proof {
        assert(r@ =~= "["@ + feeds_json_prefix(feeds_view(feeds@), 0));
    }
    while k < n
        invariant
            n == feeds@.len(),
            k <= n,
            r@ == "["@ + feeds_json_prefix(feeds_view(feeds@), k as int),
        decreases n - k,
    {
        if k > 0 {
            r.append(",");
        }
        let enc = encode_feed(&feeds[k]);
        r.append(enc.as_str());
        proof {
            assert(feeds_view(feeds@)[k as int] == feeds@[k as int]@);
            assert(r@ =~= "["@ + feeds_json_prefix(feeds_view(feeds@), k + 1));
        }
        k = k + 1;
    }
    r.append("]");
    proof {
        assert(r@ =~= feeds_json(feeds_view(feeds@)));
    }
    r
}

} // verus!
