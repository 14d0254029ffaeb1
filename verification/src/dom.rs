//! A plain model of a parsed HTML document: a vector of nodes in document
//! order, each holding its parent index and its data.  The queries that the
//! extractor needs (scoped first-match lookup, attribute lookup, text
//! collection, class-word matching) are verified against spec functions over
//! this model; only the parse itself is delegated to the `select` crate.

use vstd::prelude::*;
use vstd::string::*;

verus! {

/// One attribute of an HTML element.
pub struct HtmlAttr {
    pub name: String,
    pub value: String,
}

/// The data carried by one node of the document.
pub enum NodeData {
    Element { name: String, attrs: Vec<HtmlAttr> },
    Text { text: String },
    Comment,
}

/// One node of a parsed document.  `parent` is the index of the enclosing
/// node, or `None` at the top level.  Nodes are listed in document order
/// (pre-order), so a parent always precedes its children.
pub struct RawNode {
    pub parent: Option<usize>,
    pub data: NodeData,
}

/// What a parse of the given document text yields.
pub uninterp spec fn raw_nodes_of(html: Seq<char>) -> Seq<RawNode>;

/// Relies on `select::document::Document::from`, which parses HTML into a
/// vector of nodes in document order, each with its parent index; the result
/// depends on the document text alone.  The body only renames each node's
/// data into the model's types.
#[verifier::external_body]
pub(crate) fn parse_page(html: &str) -> (r: Vec<RawNode>)
    ensures
        r@ == raw_nodes_of(html@),
{
    let doc = select::document::Document::from(html);
    doc.nodes.iter().map(|raw| RawNode {
        parent: raw.parent,
        data: match &raw.data {
            select::node::Data::Element(name, attrs) => NodeData::Element {
                name: name.local.to_string(),
                attrs: attrs.iter().map(
                    |(n, v)| HtmlAttr { name: n.local.to_string(), value: v.to_string() },
                ).collect(),
            },
            select::node::Data::Text(t) => NodeData::Text { text: t.to_string() },
            select::node::Data::Comment(_) => NodeData::Comment,
        },
    }).collect()
}

/// ASCII whitespace, the separators of the words of a `class` attribute.
pub open spec fn is_space(c: char) -> bool {
    c == ' ' || c == '\t' || c == '\n' || c == '\r' || c == '\x0c'
}

/// `w` occurs at position `i` of `v` as a whitespace-delimited word.
pub open spec fn word_at(v: Seq<char>, w: Seq<char>, i: int) -> bool {
    &&& 0 <= i
    &&& i + w.len() <= v.len()
    &&& v.subrange(i, i + w.len() as int) == w
    &&& (i == 0 || is_space(v[i - 1]))
    &&& (i + w.len() == v.len() || is_space(v[i + w.len() as int]))
}

/// `v`, split at whitespace, contains the word `w` somewhere.
pub open spec fn has_word(v: Seq<char>, w: Seq<char>) -> bool {
    exists|i: int| word_at(v, w, i)
}

/// The value of the first attribute named `name`, if any.
pub open spec fn attr_search(attrs: Seq<HtmlAttr>, name: Seq<char>) -> Option<Seq<char>>
    decreases attrs.len(),
{
    if attrs.len() == 0 {
        None
    } else if attrs[0].name@ == name {
        Some(attrs[0].value@)
    } else {
        attr_search(attrs.drop_first(), name)
    }
}

/// The value of attribute `name` on node `n`: its first attribute so named,
/// and nothing on a non-element node.
pub open spec fn node_attr(n: RawNode, name: Seq<char>) -> Option<Seq<char>> {
    match n.data {
        NodeData::Element { name: _, attrs } => attr_search(attrs@, name),
        _ => None,
    }
}

/// The text carried directly by `n` (empty unless `n` is a text node).
pub open spec fn own_text(n: RawNode) -> Seq<char> {
    match n.data {
        NodeData::Text { text } => text@,
        _ => Seq::empty(),
    }
}

/// The parent index of node `j`, when `j` is in range and has one.
pub open spec fn parent_of(nodes: Seq<RawNode>, j: int) -> Option<int> {
    if 0 <= j < nodes.len() {
        match nodes[j].parent {
            Some(p) => Some(p as int),
            None => None,
        }
    } else {
        None
    }
}

/// Whether following at most `fuel` parent links from `j` reaches `i`.
pub open spec fn desc_fuel(nodes: Seq<RawNode>, j: int, i: int, fuel: nat) -> bool
    decreases fuel,
{
    fuel > 0 && match parent_of(nodes, j) {
        Some(p) => p == i || desc_fuel(nodes, p, i, (fuel - 1) as nat),
        None => false,
    }
}

/// `j` lies in the subtree below `i`: a chain of parent links joins them.
pub open spec fn is_descendant(nodes: Seq<RawNode>, j: int, i: int) -> bool {
    desc_fuel(nodes, j, i, nodes.len())
}

/// A structural test on one node: membership of a class word, or an element
/// name.
pub enum Marker {
    ByClass(String),
    ByName(String),
}

/// The spec-level form of a `Marker`.
pub enum MarkerSpec {
    ByClass(Seq<char>),
    ByName(Seq<char>),
}

impl View for Marker {
    type V = MarkerSpec;

    open spec fn view(&self) -> MarkerSpec {
        match self {
            Marker::ByClass(c) => MarkerSpec::ByClass(c@),
            Marker::ByName(t) => MarkerSpec::ByName(t@),
        }
    }
}

/// A usable marker: a class word is never empty.
pub open spec fn marker_wf(m: MarkerSpec) -> bool {
    match m {
        MarkerSpec::ByClass(c) => c.len() >= 1,
        MarkerSpec::ByName(_) => true,
    }
}

/// Whether node `n` meets marker `m`: an element whose `class` attribute
/// contains the word, or an element of the given name.
pub open spec fn marker_matches(n: RawNode, m: MarkerSpec) -> bool {
    match m {
        MarkerSpec::ByClass(c) => match node_attr(n, "class"@) {
            Some(v) => has_word(v, c),
            None => false,
        },
        MarkerSpec::ByName(t) => match n.data {
            NodeData::Element { name, attrs: _ } => name@ == t,
            _ => false,
        },
    }
}

/// The first index at or after `k` whose node lies below `scope` and meets
/// `m`, in document order.
pub open spec fn find_from(nodes: Seq<RawNode>, scope: int, m: MarkerSpec, k: int) -> Option<int>
    decreases nodes.len() - k,
{
    if !(0 <= k < nodes.len()) {
        None
    } else if is_descendant(nodes, k, scope) && marker_matches(nodes[k], m) {
        Some(k)
    } else {
        find_from(nodes, scope, m, k + 1)
    }
}

/// The first node below `scope` that meets `m`.
pub open spec fn find_in(nodes: Seq<RawNode>, scope: int, m: MarkerSpec) -> Option<int> {
    find_from(nodes, scope, m, 0)
}

/// The text below node `i` (its own, for a text node, and that of all its
/// text descendants), from index `k` on, in document order.
pub open spec fn text_from(nodes: Seq<RawNode>, i: int, k: int) -> Seq<char>
    decreases nodes.len() - k,
{
    if !(0 <= k < nodes.len()) {
        Seq::empty()
    } else {
        let rest = text_from(nodes, i, k + 1);
        if (k == i || is_descendant(nodes, k, i)) && nodes[k].data is Text {
            own_text(nodes[k]) + rest
        } else {
            rest
        }
    }
}

/// The visible text of node `i`: the concatenation of all text at or below
/// it, in document order.
pub open spec fn text_of(nodes: Seq<RawNode>, i: int) -> Seq<char> {
    text_from(nodes, i, 0)
}

/// The characters of `s`, one by one.
pub fn chars_of(s: &str) -> (r: Vec<char>)
    ensures
        r@ == s@,
{
    let n = s.unicode_len();
    let mut r: Vec<char> = Vec::new();
    let mut i: usize = 0;
    while i < n
        invariant
            n == s@.len(),
            i <= n,
            r@ == s@.take(i as int),
        decreases n - i,
    {
        r.push(s.get_char(i));
        proof {
            assert(s@.take(i + 1) =~= s@.take(i as int).push(s@[i as int]));
        }
        i = i + 1;
    }
    proof {
        assert(s@.take(n as int) =~= s@);
    }
    r
}

/// Whether the two strings hold the same characters.
pub fn str_eq(a: &str, b: &str) -> (r: bool)
    ensures
        r == (a@ == b@),
{
    let n = a.unicode_len();
    let m = b.unicode_len();
    if n != m {
        return false;
    }
    let mut i: usize = 0;
    while i < n
        invariant
            n == a@.len(),
            n == b@.len(),
            i <= n,
            forall|j: int| 0 <= j < i ==> a@[j] == b@[j],
        decreases n - i,
    {
        if a.get_char(i) != b.get_char(i) {
            return false;
        }
        i = i + 1;
    }
    proof {
        assert(a@ =~= b@);
    }
    true
}

fn is_space_exec(c: char) -> (r: bool)
    ensures
        r == is_space(c),
{
    c == ' ' || c == '\t' || c == '\n' || c == '\r' || c == '\x0c'
}

/// Whether `w` occurs as a whitespace-delimited word of `v`.
pub fn has_word_exec(v: &Vec<char>, w: &Vec<char>) -> (r: bool)
    requires
        w@.len() >= 1,
    ensures
        r == has_word(v@, w@),
{
    let vn = v.len();
    let wn = w.len();
    if wn > vn {
        proof {
            assert(forall|i: int| !word_at(v@, w@, i)) by {
                assert forall|i: int| !word_at(v@, w@, i) by {
                    if 0 <= i && i + w@.len() <= v@.len() {
                        assert(false);
                    }
                }
            }
        }
        return false;
    }
    let mut i: usize = 0;
    while i <= vn - wn
        invariant
            vn == v@.len(),
            wn == w@.len(),
            1 <= wn <= vn,
            i <= vn - wn + 1,
            forall|k: int| 0 <= k < i ==> !word_at(v@, w@, k),
        decreases vn - i,
    {
        let left_ok = i == 0 || is_space_exec(v[i - 1]);
        let right_ok = i + wn == vn || is_space_exec(v[i + wn]);
        if left_ok && right_ok {
            let mut j: usize = 0;
            let mut same = true;
            while j < wn
                invariant
                    vn == v@.len(),
                    wn == w@.len(),
                    i + wn <= vn,
                    j <= wn,
                    same ==> forall|t: int| 0 <= t < j ==> v@[i + t] == w@[t],
                    !same ==> v@.subrange(i as int, i + wn) != w@,
                decreases wn - j,
            {
                if same && v[i + j] != w[j] {
                    proof {
                        assert(v@.subrange(i as int, i + wn)[j as int] == v@[i + j]);
                    }
                    same = false;
                }
                j = j + 1;
            }
            if same {
                proof {
                    assert(v@.subrange(i as int, i + wn) =~= w@);
                    assert(word_at(v@, w@, i as int));
                }
                return true;
            }
        }
        proof {
            assert(!word_at(v@, w@, i as int));
        }
        i = i + 1;
    }
    proof {
        assert(forall|k: int| !word_at(v@, w@, k)) by {
            assert forall|k: int| !word_at(v@, w@, k) by {
                if 0 <= k && k + w@.len() <= v@.len() {
                    assert(k < i);
                }
            }
        }
    }
    false
}

/// The value of the first attribute named `name`, if any.
pub fn attr_lookup(attrs: &Vec<HtmlAttr>, name: &str) -> (r: Option<String>)
    ensures
        match r {
            Some(v) => attr_search(attrs@, name@) == Some(v@),
            None => attr_search(attrs@, name@) is None,
        },
{
    let n = attrs.len();
    proof {
        assert(attrs@.subrange(0, n as int) =~= attrs@);
    }
    let mut i: usize = 0;
    while i < n
        invariant
            n == attrs@.len(),
            i <= n,
            attr_search(attrs@, name@) == attr_search(attrs@.subrange(i as int, n as int), name@),
        decreases n - i,
    {
        proof {
            assert(attrs@.subrange(i as int, n as int)[0] == attrs@[i as int]);
            assert(attrs@.subrange(i as int, n as int).drop_first() =~= attrs@.subrange(
                i + 1,
                n as int,
            ));
        }
        if str_eq(attrs[i].name.as_str(), name) {
            return Some(attrs[i].value.clone());
        }
        i = i + 1;
    }
    proof {
        assert(attrs@.subrange(n as int, n as int).len() == 0);
    }
    None
}

/// Whether `j` lies in the subtree below `i`, following at most `fuel`
/// parent links.
fn desc_fuel_exec(nodes: &Vec<RawNode>, j: usize, i: usize, fuel: usize) -> (r: bool)
    requires
        j < nodes@.len(),
    ensures
        r == desc_fuel(nodes@, j as int, i as int, fuel as nat),
    decreases fuel,
{
    if fuel == 0 {
        return false;
    }
    match nodes[j].parent {
        None => false,
        Some(p) => {
            if p == i {
                true
            } else if p < nodes.len() {
                desc_fuel_exec(nodes, p, i, fuel - 1)
            } else {
                proof {
                    assert(parent_of(nodes@, p as int) is None);
                    assert(!desc_fuel(nodes@, p as int, i as int, (fuel - 1) as nat));
                }
                false
            }
        },
    }
}

/// Whether `j` lies in the subtree below `i`.
pub fn descendant_exec(nodes: &Vec<RawNode>, j: usize, i: usize) -> (r: bool)
    requires
        j < nodes@.len(),
    ensures
        r == is_descendant(nodes@, j as int, i as int),
{
    desc_fuel_exec(nodes, j, i, nodes.len())
}

/// Whether node `n` meets marker `m`.
pub fn marker_matches_exec(n: &RawNode, m: &Marker) -> (r: bool)
    requires
        marker_wf(m@),
    ensures
        r == marker_matches(*n, m@),
{
    match m {
        Marker::ByClass(c) => match &n.data {
            NodeData::Element { name: _, attrs } => match attr_lookup(attrs, "class") {
                Some(v) => {
                    let vc = chars_of(v.as_str());
                    let wc = chars_of(c.as_str());
                    has_word_exec(&vc, &wc)
                },
                None => false,
            },
            _ => false,
        },
        Marker::ByName(t) => match &n.data {
            NodeData::Element { name, attrs: _ } => str_eq(name.as_str(), t.as_str()),
            _ => false,
        },
    }
}

/// The first node below `scope` that meets `m`, in document order.
pub fn find_in_exec(nodes: &Vec<RawNode>, scope: usize, m: &Marker) -> (r: Option<usize>)
    requires
        marker_wf(m@),
    ensures
        match r {
            Some(j) => find_in(nodes@, scope as int, m@) == Some(j as int) && j < nodes@.len(),
            None => find_in(nodes@, scope as int, m@) is None,
        },
{
    let n = nodes.len();
    let mut k: usize = 0;
    while k < n
        invariant
            marker_wf(m@),
            n == nodes@.len(),
            k <= n,
            find_in(nodes@, scope as int, m@) == find_from(nodes@, scope as int, m@, k as int),
        decreases n - k,
    {
        if descendant_exec(nodes, k, scope) && marker_matches_exec(&nodes[k], m) {
            return Some(k);
        }
        k = k + 1;
    }
    None
}

/// The visible text of node `i`: all text at or below it, in document order.
pub fn text_of_exec(nodes: &Vec<RawNode>, i: usize) -> (r: String)
    ensures
        r@ == text_of(nodes@, i as int),
{
    let n = nodes.len();
    let mut out = String::new();
    let mut k: usize = 0;
    while k < n
        invariant
            n == nodes@.len(),
            k <= n,
            text_of(nodes@, i as int) == out@ + text_from(nodes@, i as int, k as int),
        decreases n - k,
    {
        let below = k == i || descendant_exec(nodes, k, i);
        if below {
            match &nodes[k].data {
                NodeData::Text { text } => {
                    proof {
                        assert((out@ + own_text(nodes@[k as int])) + text_from(
                            nodes@,
                            i as int,
                            k + 1,
                        ) =~= out@ + (own_text(nodes@[k as int]) + text_from(
                            nodes@,
                            i as int,
                            k + 1,
                        )));
                    }
                    out.append(text.as_str());
                },
                _ => {},
            }
        }
        k = k + 1;
    }
    proof {
        assert(out@ + text_from(nodes@, i as int, n as int) =~= out@);
    }
    out
}

} // verus!
