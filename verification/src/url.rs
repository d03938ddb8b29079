//! The request target: a path, an optional query, and the matching of the
//! path against route patterns with named dynamic segments.

use crate::params::Params;
use crate::text::{
    contains, lemma_split_pieces, lemma_views_push, split, split_once, split_once_str, split_str,
    str_eq, views,
};
use vstd::prelude::*;
use vstd::string::*;

verus! {

/// The path of a request target: what stands before the first `?`.
pub open spec fn url_path(target: Seq<char>) -> Seq<char> {
    match split_once(target, "?"@) {
        Some((path, _)) => path,
        None => target,
    }
}

/// The query string of a request target: what follows the first `?`.
pub open spec fn url_query_text(target: Seq<char>) -> Option<Seq<char>> {
    match split_once(target, "?"@) {
        Some((_, query)) => Some(query),
        None => None,
    }
}

/// The map that a list of `key=value` items stands for. An item without `=`
/// or with an empty key is dropped; of two items with one key the later wins.
pub open spec fn query_pairs(items: Seq<Seq<char>>) -> Map<Seq<char>, Seq<char>>
    decreases items.len(),
{
    if items.len() == 0 {
        Map::empty()
    } else {
        let earlier = query_pairs(items.drop_last());
        match split_once(items.last(), "="@) {
            Some((key, value)) => if key.len() > 0 {
                earlier.insert(key, value)
            } else {
                earlier
            },
            None => earlier,
        }
    }
}

/// The map that a query string stands for: its items are separated by `&`.
pub open spec fn query_map(query: Seq<char>) -> Map<Seq<char>, Seq<char>> {
    query_pairs(split(query, "&"@))
}

/// The segments of a path or of a pattern: its pieces between `/`, the empty
/// ones left out.
pub open spec fn segments(path: Seq<char>) -> Seq<Seq<char>> {
    split(path, "/"@).filter(|piece: Seq<char>| piece.len() > 0)
}

/// Every segment holds at least one character and no `/`.
pub proof fn lemma_segments(path: Seq<char>)
    ensures
        forall|i: int|
            0 <= i < segments(path).len() ==> (#[trigger] segments(path)[i]).len() > 0
                && !contains(segments(path)[i], "/"@),
{
    reveal_strlit("/");
    let keep = |piece: Seq<char>| piece.len() > 0;
    let pieces = split(path, "/"@);
    lemma_split_pieces(path, "/"@);
    assert forall|i: int| 0 <= i < segments(path).len() implies (#[trigger] segments(
        path,
    )[i]).len() > 0 && !contains(segments(path)[i], "/"@) by {
        let segment = pieces.filter(keep)[i];
        pieces.lemma_filter_pred(keep, i);
        assert(pieces.filter(keep).contains(segment));
        pieces.lemma_filter_contains_rev(keep, segment);
        let k = choose|k: int| 0 <= k < pieces.len() && pieces[k] == segment;
        assert(!contains(pieces[k], "/"@));
    }
}

/// A pattern segment that starts with `:` is dynamic: it matches any path
/// segment and binds it.
pub open spec fn is_dynamic(segment: Seq<char>) -> bool {
    segment.len() > 0 && segment[0] == ':'
}

/// The path segments fit the pattern segments: there are as many, and each
/// pattern segment that is not dynamic equals the path segment at its place.
pub open spec fn segments_fit(path: Seq<Seq<char>>, pattern: Seq<Seq<char>>) -> bool {
    &&& path.len() == pattern.len()
    &&& forall|i: int|
        0 <= i < pattern.len() ==> is_dynamic(#[trigger] pattern[i]) || path[i] == pattern[i]
}

/// The values bound by the first `n` pattern segments: each dynamic segment
/// binds the path segment at its place under the name that follows the `:`.
pub open spec fn bindings(path: Seq<Seq<char>>, pattern: Seq<Seq<char>>, n: int) -> Map<
    Seq<char>,
    Seq<char>,
>
    decreases n,
{
    if n <= 0 {
        Map::empty()
    } else {
        let earlier = bindings(path, pattern, n - 1);
        if is_dynamic(pattern[n - 1]) {
            earlier.insert(pattern[n - 1].skip(1), path[n - 1])
        } else {
            earlier
        }
    }
}

/// The parameters that matching `path` against `pattern` binds, or `None`
/// where the path does not fit the pattern.
pub open spec fn match_params(path: Seq<char>, pattern: Seq<char>) -> Option<
    Map<Seq<char>, Seq<char>>,
> {
    let p = segments(path);
    let q = segments(pattern);
    if segments_fit(p, q) {
        Some(bindings(p, q, q.len() as int))
    } else {
        None
    }
}

/// The names bound are the names of the dynamic segments, and no others.
pub proof fn lemma_bindings_keys(
    path: Seq<Seq<char>>,
    pattern: Seq<Seq<char>>,
    n: int,
    key: Seq<char>,
)
    requires
        0 <= n <= pattern.len(),
    ensures
        bindings(path, pattern, n).contains_key(key) <==> exists|i: int|
            0 <= i < n && is_dynamic(#[trigger] pattern[i]) && pattern[i].skip(1) == key,
    decreases n,
{
    if n > 0 {
        lemma_bindings_keys(path, pattern, n - 1, key);
        if bindings(path, pattern, n).contains_key(key) {
            if is_dynamic(pattern[n - 1]) && pattern[n - 1].skip(1) == key {
            } else {
                let i = choose|i: int|
                    0 <= i < n - 1 && is_dynamic(#[trigger] pattern[i]) && pattern[i].skip(1)
                        == key;
                assert(is_dynamic(pattern[i]) && pattern[i].skip(1) == key);
            }
        }
    }
}

/// A dynamic segment binds the path segment at its place under its name,
/// unless a later dynamic segment has the same name.
pub proof fn lemma_binding_value(path: Seq<Seq<char>>, pattern: Seq<Seq<char>>, n: int, i: int)
    requires
        0 <= i < n <= pattern.len(),
        is_dynamic(pattern[i]),
        forall|j: int|
            i < j < n && is_dynamic(#[trigger] pattern[j]) ==> pattern[j].skip(1)
                != pattern[i].skip(1),
    ensures
        bindings(path, pattern, n).contains_key(pattern[i].skip(1)),
        bindings(path, pattern, n)[pattern[i].skip(1)] == path[i],
    decreases n,
{
    if i < n - 1 {
        lemma_binding_value(path, pattern, n - 1, i);
    }
}

/// A pattern without dynamic segments binds nothing.
pub proof fn lemma_literal_pattern_binds_nothing(
    path: Seq<Seq<char>>,
    pattern: Seq<Seq<char>>,
    n: int,
)
    requires
        0 <= n <= pattern.len(),
        forall|i: int| 0 <= i < n ==> !is_dynamic(#[trigger] pattern[i]),
    ensures
        bindings(path, pattern, n) == Map::<Seq<char>, Seq<char>>::empty(),
    decreases n,
{
    if n > 0 {
        lemma_literal_pattern_binds_nothing(path, pattern, n - 1);
    }
}

/// What a `Url` holds, as plain values.
pub struct UrlView {
    pub path: Seq<char>,
    pub query: Option<Map<Seq<char>, Seq<char>>>,
}

/// The `Url` that a request target stands for.
pub open spec fn parse_url(target: Seq<char>) -> UrlView {
    UrlView {
        path: url_path(target),
        query: match url_query_text(target) {
            Some(query) => Some(query_map(query)),
            None => None,
        },
    }
}

/// A parsed request target.
#[derive(Debug)]
pub struct Url {
    /// The path, as it was received.
    pub path: String,
    /// The query parameters, where the target has a `?`.
    pub query: Option<Params>,
}

impl View for Url {
    type V = UrlView;

    open spec fn view(&self) -> UrlView {
        UrlView {
            path: self.path@,
            query: match self.query {
                Some(q) => Some(q@),
                None => None,
            },
        }
    }
}

/// The non-empty pieces of `s` between `/`.
pub fn segments_str(s: &str) -> (r: Vec<String>)
    ensures
        views(r@) == segments(s@),
{
    let pieces = split_str(s, "/");
    let ghost keep = |piece: Seq<char>| piece.len() > 0;
    let mut out: Vec<String> = Vec::new();
    let mut i: usize = 0;
    proof {
        reveal(Seq::filter);
        assert(views(pieces@).take(0) =~= Seq::<Seq<char>>::empty());
        assert(views(out@) =~= Seq::<Seq<char>>::empty());
    }
    while i < pieces.len()
        invariant
            i <= pieces.len(),
            views(pieces@) == split(s@, "/"@),
            keep == |piece: Seq<char>| piece.len() > 0,
            views(out@) == views(pieces@).take(i as int).filter(keep),
        decreases pieces.len() - i,
    {
        proof {
            let done = views(pieces@).take(i as int);
            assert(views(pieces@).take(i + 1) =~= done.push(pieces@[i as int]@));
            done.lemma_filter_push(pieces@[i as int]@, keep);
        }
        if !pieces[i].as_str().is_empty() {
            proof {
                lemma_views_push(out@, pieces@[i as int]);
            }
            out.push(pieces[i].clone());
        }
        i += 1;
    }
    assert(views(pieces@).take(i as int) =~= views(pieces@));
    out
}

impl Url {
    /// Parses a request target into its path and its query parameters.
    pub fn new(url: &str) -> (r: Url)
        ensures
            r@ == parse_url(url@),
    {
        match split_once_str(url, "?") {
            Some((path, query)) => Url {
                path,
                query: Some(Url::parse_query(query.as_str())),
            },
            None => Url { path: url.to_owned(), query: None },
        }
    }

    /// Parses a query string into its parameters.
    pub fn parse_query(query: &str) -> (r: Params)
        ensures
            r@ == query_map(query@),
    {
        let items = split_str(query, "&");
        let mut params = Params::new();
        let mut i: usize = 0;
        assert(views(items@).take(0) =~= Seq::<Seq<char>>::empty());
        while i < items.len()
            invariant
                i <= items.len(),
                params@ == query_pairs(views(items@).take(i as int)),
            decreases items.len() - i,
        {
            proof {
                let next = views(items@).take(i + 1);
                assert(next.drop_last() =~= views(items@).take(i as int));
                assert(next.last() == items@[i as int]@);
            }
            match split_once_str(items[i].as_str(), "=") {
                Some((key, value)) => {
                    if !key.as_str().is_empty() {
                        params.insert(key, value);
                    }
                },
                None => {},
            }
            i += 1;
        }
        assert(views(items@).take(i as int) =~= views(items@));
        params
    }

    /// Matches the path against `pattern`. Where the path fits, returns the
    /// values bound by the pattern's dynamic segments.
    pub fn match_path(&self, pattern: &str) -> (r: Option<Params>)
        ensures
            match r {
                Some(params) => match_params(self.path@, pattern@) == Some(params@),
                None => match_params(self.path@, pattern@) is None,
            },
            r is Some <==> segments_fit(segments(self.path@), segments(pattern@)),
    {
        let p = segments_str(self.path.as_str());
        let q = segments_str(pattern);
        if p.len() != q.len() {
            return None;
        }
        let mut params = Params::new();
        let mut i: usize = 0;
        while i < q.len()
            invariant
                i <= q.len(),
                p.len() == q.len(),
                views(p@) == segments(self.path@),
                views(q@) == segments(pattern@),
                params@ == bindings(views(p@), views(q@), i as int),
                forall|j: int|
                    0 <= j < i ==> is_dynamic(#[trigger] views(q@)[j]) || views(p@)[j] == views(
                        q@,
                    )[j],
            decreases q.len() - i,
        {
            let segment = q[i].as_str();
            let n = segment.unicode_len();
            if n > 0 && segment.get_char(0) == ':' {
                let name = segment.substring_char(1, n).to_owned();
                assert(name@ =~= views(q@)[i as int].skip(1));
                params.insert(name, p[i].clone());
            } else if !str_eq(p[i].as_str(), segment) {
                assert(!is_dynamic(views(q@)[i as int]));
                return None;
            }
            i += 1;
        }
        Some(params)
    }

    /// Whether the two values have the same path and the same parameters.
    pub fn same_as(&self, other: &Url) -> (r: bool)
        ensures
            r == (self@ == other@),
    {
        if !str_eq(self.path.as_str(), other.path.as_str()) {
            return false;
        }
        match (&self.query, &other.query) {
            (Some(a), Some(b)) => a.same_as(b),
            (None, None) => true,
            _ => false,
        }
    }
}

impl PartialEq for Url {
    fn eq(&self, other: &Url) -> (r: bool) {
        self.same_as(other)
    }
}

impl vstd::std_specs::cmp::PartialEqSpecImpl for Url {
    open spec fn obeys_eq_spec() -> bool {
        true
    }

    open spec fn eq_spec(&self, other: &Url) -> bool {
        self@ == other@
    }
}

} // verus!
