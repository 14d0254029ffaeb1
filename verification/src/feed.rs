//! The feed record that one catalog entry is converted to, and the error
//! taxonomy of the pipeline.

use vstd::prelude::*;
use vstd::string::*;

verus! {

/// One catalog entry in syndication form.  `price` is genuinely optional; it
/// holds either a price label or a series label.  `guid` is the raw item
/// link: the policy chosen here is that the identifier is the link itself,
/// unchanged, so that equal links always yield equal identifiers.
#[derive(Debug)]
pub struct Feed {
    pub feedlink: String,
    pub feedtitle: String,
    pub author: String,
    pub title: String,
    pub thumb_url: String,
    pub link: String,
    pub shop: String,
    pub price: Option<String>,
    pub category: String,
    pub guid: String,
}

/// The spec-level form of a `Feed`.
pub struct FeedView {
    pub feedlink: Seq<char>,
    pub feedtitle: Seq<char>,
    pub author: Seq<char>,
    pub title: Seq<char>,
    pub thumb_url: Seq<char>,
    pub link: Seq<char>,
    pub shop: Seq<char>,
    pub price: Option<Seq<char>>,
    pub category: Seq<char>,
    pub guid: Seq<char>,
}

impl View for Feed {
    type V = FeedView;

    open spec fn view(&self) -> FeedView {
        FeedView {
            feedlink: self.feedlink@,
            feedtitle: self.feedtitle@,
            author: self.author@,
            title: self.title@,
            thumb_url: self.thumb_url@,
            link: self.link@,
            shop: self.shop@,
            price: match self.price {
                Some(p) => Some(p@),
                None => None,
            },
            category: self.category@,
            guid: self.guid@,
        }
    }
}

/// The views of a batch of feed records.
pub open spec fn feeds_view(v: Seq<Feed>) -> Seq<FeedView> {
    v.map_values(|f: Feed| f@)
}

/// What can go wrong in the pipeline.  Every error is fatal to the run.
#[derive(Debug, Clone, PartialEq, Eq)]
pub enum FeedError {
    /// A connection-level failure, with the transport's message.
    Transport(String),
    /// A response with a status other than OK, kept with its body.
    HttpStatus { code: u16, body: String },
    /// A string that does not parse as an absolute URL.
    UrlParse,
    /// An expected markup node or attribute that is absent, by field name.
    MissingField(String),
}

/// The spec-level form of a `FeedError`.
pub enum FeedErrorView {
    Transport(Seq<char>),
    HttpStatus { code: u16, body: Seq<char> },
    UrlParse,
    MissingField(Seq<char>),
}

impl View for FeedError {
    type V = FeedErrorView;

    open spec fn view(&self) -> FeedErrorView {
        match self {
            FeedError::Transport(m) => FeedErrorView::Transport(m@),
            FeedError::HttpStatus { code, body } => FeedErrorView::HttpStatus {
                code: *code,
                body: body@,
            },
            FeedError::UrlParse => FeedErrorView::UrlParse,
            FeedError::MissingField(f) => FeedErrorView::MissingField(f@),
        }
    }
}

/// Relies on `String::push`, which appends one character to the string.
pub assume_specification[ String::push ](s: &mut String, c: char)
    ensures
        final(s)@ == old(s)@.push(c),
;

/// Decimal digit for a value below ten.
pub open spec fn dec_digit(n: nat) -> char {
    if n == 0 {
        '0'
    } else if n == 1 {
        '1'
    } else if n == 2 {
        '2'
    } else if n == 3 {
        '3'
    } else if n == 4 {
        '4'
    } else if n == 5 {
        '5'
    } else if n == 6 {
        '6'
    } else if n == 7 {
        '7'
    } else if n == 8 {
        '8'
    } else {
        '9'
    }
}

/// The decimal rendering of `n`, without leading zeros.
pub open spec fn dec_of(n: nat) -> Seq<char>
    decreases n,
{
    if n < 10 {
        seq![dec_digit(n)]
    } else {
        dec_of(n / 10) + seq![dec_digit(n % 10)]
    }
}

fn dec_digit_exec(d: u16) -> (c: char)
    requires
        d < 10,
    ensures
        c == dec_digit(d as nat),
{
    if d == 0 {
        '0'
    } else if d == 1 {
        '1'
    } else if d == 2 {
        '2'
    } else if d == 3 {
        '3'
    } else if d == 4 {
        '4'
    } else if d == 5 {
        '5'
    } else if d == 6 {
        '6'
    } else if d == 7 {
        '7'
    } else if d == 8 {
        '8'
    } else {
        '9'
    }
}

/// The decimal rendering of `n`.
pub fn dec_u16(n: u16) -> (r: String)
    ensures
        r@ == dec_of(n as nat),
    decreases n,
{
    if n < 10 {
        let mut s = String::new();
        s.push(dec_digit_exec(n));
        proof {
            assert(s@ =~= seq![dec_digit(n as nat)]);
        }
        s
    } else {
        let mut s = dec_u16(n / 10);
        s.push(dec_digit_exec(n % 10));
        proof {
            assert(s@ =~= dec_of((n / 10) as nat) + seq![dec_digit((n % 10) as nat)]);
        }
        s
    }
}

/// The human-readable message of an error.
pub open spec fn error_message_of(e: FeedErrorView) -> Seq<char> {
    match e {
        FeedErrorView::Transport(m) => m,
        FeedErrorView::HttpStatus { code, body } => "request returned "@ + dec_of(code as nat)
            + ": "@ + body,
        FeedErrorView::UrlParse => "unable to parse URL"@,
        FeedErrorView::MissingField(f) => "unable to find "@ + f,
    }
}

impl FeedError {
    /// Renders the error for the failure channel, including, for a status
    /// error, the status code and the raw response body.
    pub fn message(&self) -> (r: String)
        ensures
            r@ == error_message_of(self@),
    {
        match self {
            FeedError::Transport(m) => m.clone(),
            FeedError::HttpStatus { code, body } => {
                let mut s = String::new();
                s.append("request returned ");
                let d = dec_u16(*code);
                s.append(d.as_str());
                s.append(": ");
                s.append(body.as_str());
                proof {
                    assert(s@ =~= error_message_of(self@));
                }
                s
            },
            FeedError::UrlParse => "unable to parse URL".to_owned(),
            FeedError::MissingField(f) => {
                let mut s = String::new();
                s.append("unable to find ");
                s.append(f.as_str());
                proof {
                    assert(s@ =~= error_message_of(self@));
                }
                s
            },
        }
    }
}

} // verus!
