//! The routing core: path patterns made of literal, named (`:x`) and
//! catch-all (`*x`) segments, an ordered route table, and first-match
//! dispatch with parameter capture.

use vstd::prelude::*;
use vstd::string::StrSliceExecFns;
use vstd::string::StringExecFns;
use crate::paths::{split_slash, join_slash, views, split_path, join_from, string_eq};

verus! {

/// One segment of a route pattern.
#[derive(Debug)]
pub enum Segment {
    /// Matches exactly this text.
    Literal(String),
    /// `:name`: matches any one non-empty segment and captures it under
    /// `name`.
    Named(String),
    /// `*name`: matches all remaining segments and captures them, joined
    /// with `/`, under `name`. Valid only as the final pattern segment.
    CatchAll(String),
}

/// The mathematical shape of a pattern segment.
pub enum SegView {
    Literal(Seq<char>),
    Named(Seq<char>),
    CatchAll(Seq<char>),
}

impl View for Segment {
    type V = SegView;

    open spec fn view(&self) -> SegView {
        match self {
            Segment::Literal(s) => SegView::Literal(s@),
            Segment::Named(s) => SegView::Named(s@),
            Segment::CatchAll(s) => SegView::CatchAll(s@),
        }
    }
}

/// The text a segment was classified from carries over to its payload.
pub open spec fn classify(seg: Seq<char>) -> SegView {
    if seg.len() > 0 && seg[0] == ':' {
        SegView::Named(seg.skip(1))
    } else if seg.len() > 0 && seg[0] == '*' {
        SegView::CatchAll(seg.skip(1))
    } else {
        SegView::Literal(seg)
    }
}

/// The pattern a whole pattern string denotes: its slash-separated segments,
/// each classified.
pub open spec fn pattern_of(s: Seq<char>) -> Seq<SegView> {
    split_slash(s).map_values(|seg: Seq<char>| classify(seg))
}

/// A pattern is well formed when any catch-all segment is its final segment.
pub open spec fn wf_pattern(pattern: Seq<SegView>) -> bool {
    forall|i: int|
        0 <= i < pattern.len() && pattern[i] is CatchAll ==> i == pattern.len() - 1
}

/// Every character of every segment of a split is a character of the
/// string that was split.
pub proof fn lemma_split_slash_no_char(s: Seq<char>, c: char)
    requires
        forall|i: int| 0 <= i < s.len() ==> s[i] != c,
    ensures
        forall|k: int, j: int|
            0 <= k < split_slash(s).len() && 0 <= j < split_slash(s)[k].len()
                ==> #[trigger] split_slash(s)[k][j] != c,
    decreases s.len(),
{
    if s.len() > 0 {
        assert(forall|i: int| 0 <= i < s.len() - 1 ==> #[trigger] s.drop_last()[i] != c);
        lemma_split_slash_no_char(s.drop_last(), c);
        crate::paths::lemma_split_slash_nonempty(s.drop_last());
    }
}

/// A pattern string without `*` denotes a pattern without catch-all
/// segments, which is well formed wherever they would stand.
pub proof fn lemma_wf_without_star(s: Seq<char>)
    requires
        forall|i: int| 0 <= i < s.len() ==> s[i] != '*',
    ensures
        wf_pattern(pattern_of(s)),
{
    lemma_split_slash_no_char(s, '*');
    assert forall|i: int|
        0 <= i < pattern_of(s).len() && #[trigger] pattern_of(s)[i] is CatchAll implies false by {
        assert(pattern_of(s)[i] == classify(split_slash(s)[i]));
        assert(split_slash(s)[i][0] == '*');
    }
}

/// Classifies one segment of a pattern string.
fn classify_segment(seg: &String) -> (segment: Segment)
    ensures
        segment@ == classify(seg@),
{
    let n: usize = seg.as_str().unicode_len();
    if n > 0 && seg.as_str().get_char(0) == ':' {
        Segment::Named(seg.as_str().substring_char(1, n).to_owned())
    } else if n > 0 && seg.as_str().get_char(0) == '*' {
        Segment::CatchAll(seg.as_str().substring_char(1, n).to_owned())
    } else {
        Segment::Literal(seg.clone())
    }
}

/// Rejected route registrations.
#[derive(Debug, Clone, Copy, PartialEq, Eq, Structural)]
pub enum ConfigError {
    /// The pattern holds a catch-all segment that is not its final segment.
    CatchAllNotLast,
}

/// A parsed, well-formed route pattern.
pub struct Pattern {
    segments: Vec<Segment>,
}

impl View for Pattern {
    type V = Seq<SegView>;

    closed spec fn view(&self) -> Seq<SegView> {
        self.segments@.map_values(|g: Segment| g@)
    }
}

impl Pattern {
    /// Parses a pattern string, rejecting patterns whose catch-all is not
    /// the final segment.
    pub fn parse(pattern: &str) -> (parsed: Result<Pattern, ConfigError>)
        ensures
            parsed is Ok <==> wf_pattern(pattern_of(pattern@)),
            parsed matches Ok(p) ==> p@ == pattern_of(pattern@),
            parsed matches Err(e) ==> e == ConfigError::CatchAllNotLast,
    {
        let raw = split_path(pattern);
        let mut segments: Vec<Segment> = Vec::new();
        let mut i: usize = 0;
        while i < raw.len()
            invariant
                i <= raw@.len(),
                views(raw@) == split_slash(pattern@),
                segments@.map_values(|g: Segment| g@) =~= pattern_of(pattern@).take(i as int),
            decreases raw@.len() - i,
        {
            let segment = classify_segment(&raw[i]);
            let ghost prev = segments@;
            let ghost to_view = |g: Segment| g@;
            segments.push(segment);
            proof {
                prev.lemma_push_map_commute(to_view, segment);
                assert(views(raw@)[i as int] == raw@[i as int]@);
                assert(pattern_of(pattern@)[i as int] == classify(split_slash(pattern@)[i as int]));
                assert(segments@.map_values(to_view) == prev.map_values(to_view).push(segment@));
                assert(segments@.map_values(|g: Segment| g@) =~= pattern_of(pattern@).take(
                    i + 1,
                ));
            }
            i = i + 1;
        }
        proof {
            assert(segments@.map_values(|g: Segment| g@) =~= pattern_of(pattern@));
        }
        let n = segments.len();
        let mut k: usize = 0;
        while k < n
            invariant
                k <= n,
                n == segments@.len(),
                segments@.map_values(|g: Segment| g@) =~= pattern_of(pattern@),
                forall|j: int|
                    0 <= j < k && #[trigger] pattern_of(pattern@)[j] is CatchAll ==> j == n - 1,
            decreases n - k,
        {
            let is_catch_all = match &segments[k] {
                Segment::CatchAll(_) => true,
                _ => false,
            };
            if is_catch_all && k + 1 < n {
                proof {
                    assert(segments@.map_values(|g: Segment| g@)[k as int] is CatchAll);
                    assert(!wf_pattern(pattern_of(pattern@)));
                }
                return Err(ConfigError::CatchAllNotLast);
            }
            k = k + 1;
        }
        Ok(Pattern { segments })
    }
}

/// The view of one captured parameter: its name and its value.
pub open spec fn captured_pair(pair: (String, String)) -> (Seq<char>, Seq<char>) {
    (pair.0@, pair.1@)
}

/// The views of a sequence of captured parameters.
pub open spec fn pairs_view(pairs: Seq<(String, String)>) -> Seq<(Seq<char>, Seq<char>)> {
    pairs.map_values(|pair: (String, String)| captured_pair(pair))
}

pub proof fn lemma_pairs_view_push(pairs: Seq<(String, String)>, pair: (String, String))
    ensures
        pairs_view(pairs.push(pair)) =~= pairs_view(pairs).push(captured_pair(pair)),
{
}

/// The parameters one match captures: name/value pairs in left-to-right
/// pattern order.
pub struct RouteMatch {
    pairs: Vec<(String, String)>,
}

impl View for RouteMatch {
    type V = Seq<(Seq<char>, Seq<char>)>;

    closed spec fn view(&self) -> Seq<(Seq<char>, Seq<char>)> {
        pairs_view(self.pairs@)
    }
}

/// The value under the first pair whose name is `name`, if any.
pub open spec fn lookup(pairs: Seq<(Seq<char>, Seq<char>)>, name: Seq<char>) -> Option<Seq<char>>
    decreases pairs.len(),
{
    if pairs.len() == 0 {
        None
    } else if pairs[0].0 == name {
        Some(pairs[0].1)
    } else {
        lookup(pairs.skip(1), name)
    }
}

impl RouteMatch {
    /// The value captured under `name`, if the match captured that name.
    pub fn get(&self, name: &str) -> (value: Option<&String>)
        ensures
            match value {
                Some(v) => lookup(self@, name@) == Some(v@),
                None => lookup(self@, name@) is None,
            },
    {
        let owned = name.to_owned();
        let mut i: usize = 0;
        proof {
            assert(self@.skip(0) =~= self@);
        }
        while i < self.pairs.len()
            invariant
                i <= self.pairs@.len(),
                owned@ == name@,
                lookup(self@, name@) == lookup(self@.skip(i as int), name@),
            decreases self.pairs@.len() - i,
        {
            proof {
                assert(self@.skip(i as int)[0] == self@[i as int]);
                assert(self@[i as int] == captured_pair(self.pairs@[i as int]));
                assert(self@.skip(i as int).skip(1) =~= self@.skip(i + 1));
            }
            if string_eq(&self.pairs[i].0, &owned) {
                return Some(&self.pairs[i].1);
            }
            i = i + 1;
        }
        proof {
            assert(self@.skip(i as int).len() == 0);
        }
        None
    }
}

/// Prefixes already-captured parameters onto the outcome of matching the
/// rest of a pattern.
pub open spec fn with_prefix(
    prefix: Seq<(Seq<char>, Seq<char>)>,
    rest: Option<Seq<(Seq<char>, Seq<char>)>>,
) -> Option<Seq<(Seq<char>, Seq<char>)>> {
    match rest {
        Some(pairs) => Some(prefix + pairs),
        None => None,
    }
}

/// Structural matching of a pattern against the segments of a request path:
/// `None` when they disagree, otherwise the captured parameters. A literal
/// segment matches only its own text; a named segment matches any one
/// non-empty segment and captures it; a catch-all matches all remaining
/// segments (zero included) and captures them joined with `/`.
pub open spec fn match_segments(
    pattern: Seq<SegView>,
    path: Seq<Seq<char>>,
) -> Option<Seq<(Seq<char>, Seq<char>)>>
    decreases pattern.len(),
{
    if pattern.len() == 0 {
        if path.len() == 0 {
            Some(Seq::<(Seq<char>, Seq<char>)>::empty())
        } else {
            None
        }
    } else {
        match pattern[0] {
            SegView::CatchAll(name) => Some(seq![(name, join_slash(path))]),
            SegView::Literal(text) => if path.len() > 0 && path[0] == text {
                match_segments(pattern.skip(1), path.skip(1))
            } else {
                None
            },
            SegView::Named(name) => if path.len() > 0 && path[0].len() > 0 {
                with_prefix(seq![(name, path[0])], match_segments(pattern.skip(1), path.skip(1)))
            } else {
                None
            },
        }
    }
}

impl Pattern {
    /// Matches this pattern against already-split path segments, returning
    /// the captured parameters on success.
    pub fn match_segments_of(&self, path: &Vec<String>) -> (matched: Option<RouteMatch>)
        ensures
            match matched {
                Some(m) => match_segments(self@, views(path@)) == Some(m@),
                None => match_segments(self@, views(path@)) is None,
            },
    {
        let ghost pviews = views(path@);
        let mut pairs: Vec<(String, String)> = Vec::new();
        let mut i: usize = 0;
        proof {
            assert(pairs_view(pairs@) =~= Seq::<(Seq<char>, Seq<char>)>::empty());
            assert(self@.skip(0) =~= self@);
            assert(pviews.skip(0) =~= pviews);
        }
        while i < self.segments.len()
            invariant
                i <= self.segments@.len(),
                i <= path@.len(),
                pviews == views(path@),
                match_segments(self@, pviews) == with_prefix(
                    pairs_view(pairs@),
                    match_segments(self@.skip(i as int), pviews.skip(i as int)),
                ),
            decreases self.segments@.len() - i,
        {
            proof {
                assert(self@.skip(i as int)[0] == self@[i as int]);
                assert(self@[i as int] == self.segments@[i as int]@);
                assert(self@.skip(i as int).skip(1) =~= self@.skip(i + 1));
                if i < pviews.len() {
                    assert(pviews.skip(i as int)[0] == pviews[i as int]);
                    assert(pviews[i as int] == path@[i as int]@);
                    assert(pviews.skip(i as int).skip(1) =~= pviews.skip(i + 1));
                }
            }
            let ghost prev = pairs@;
            match &self.segments[i] {
                Segment::CatchAll(name) => {
                    let captured = join_from(path, i);
                    pairs.push((name.clone(), captured));
                    proof {
                        lemma_pairs_view_push(prev, pairs@.last());
                        assert(captured_pair(pairs@.last()) == (
                            name@,
                            join_slash(pviews.skip(i as int)),
                        ));
                        assert(pairs_view(prev) + seq![(name@, join_slash(pviews.skip(i as int)))]
                            =~= pairs_view(pairs@));
                    }
                    return Some(RouteMatch { pairs });
                },
                Segment::Literal(text) => {
                    if i >= path.len() {
                        return None;
                    }
                    if !string_eq(text, &path[i]) {
                        return None;
                    }
                },
                Segment::Named(name) => {
                    if i >= path.len() {
                        return None;
                    }
                    if path[i].as_str().is_empty() {
                        return None;
                    }
                    let value = path[i].clone();
                    pairs.push((name.clone(), value));
                    proof {
                        lemma_pairs_view_push(prev, pairs@.last());
                        assert(captured_pair(pairs@.last()) == (name@, pviews[i as int]));
                        let rec = match_segments(self@.skip(i + 1), pviews.skip(i + 1));
                        if rec is Some {
                            assert(pairs_view(prev) + (seq![(name@, pviews[i as int])]
                                + rec->Some_0) =~= pairs_view(pairs@) + rec->Some_0);
                        }
                    }
                },
            }
            i = i + 1;
        }
        if i == path.len() {
            proof {
                assert(pviews.skip(i as int).len() == 0);
                assert(self@.skip(i as int).len() == 0);
                assert(pairs_view(pairs@) + Seq::<(Seq<char>, Seq<char>)>::empty() =~= pairs_view(
                    pairs@,
                ));
            }
            Some(RouteMatch { pairs })
        } else {
            None
        }
    }
}

/// The handlers this service dispatches to. `FormField` reads the request
/// body before it answers, so invoking it may suspend; the others answer
/// immediately. Dispatch treats both kinds uniformly.
#[derive(Debug, Clone, Copy, PartialEq, Eq, Structural)]
pub enum Handler {
    /// Renders the geolocation page; answers immediately.
    Geolocation,
    /// Extracts one form field from the request body; may suspend.
    FormField,
    /// Reports the configured version; answers immediately.
    Version,
}

impl Handler {
    /// Whether invoking this handler may suspend to read the request body.
    pub fn suspends(&self) -> (suspending: bool)
        ensures
            suspending == (*self is FormField),
    {
        matches!(self, Handler::FormField)
    }
}

/// One registered route: a method, a parsed pattern, and the handler bound
/// to them.
pub struct Route {
    method: String,
    pattern: Pattern,
    handler: Handler,
}

/// The mathematical shape of one registered route.
pub struct RouteView {
    pub method: Seq<char>,
    pub pattern: Seq<SegView>,
    pub handler: Handler,
}

impl View for Route {
    type V = RouteView;

    closed spec fn view(&self) -> RouteView {
        RouteView { method: self.method@, pattern: self.pattern@, handler: self.handler }
    }
}

/// The views of a sequence of routes.
pub open spec fn routes_view(routes: Seq<Route>) -> Seq<RouteView> {
    routes.map_values(|route: Route| route@)
}

pub proof fn lemma_routes_view_push(routes: Seq<Route>, route: Route)
    ensures
        routes_view(routes.push(route)) =~= routes_view(routes).push(route@),
{
}

/// A route answers a request when the methods agree and its pattern
/// structurally matches the path segments.
pub open spec fn route_matches(route: RouteView, method: Seq<char>, path: Seq<Seq<char>>) -> bool {
    route.method == method && match_segments(route.pattern, path) is Some
}

/// The first route, in registration order, that answers the request, with
/// the parameters its pattern captures; `None` when no route answers.
pub open spec fn first_match(
    routes: Seq<RouteView>,
    method: Seq<char>,
    path: Seq<Seq<char>>,
) -> Option<(int, Seq<(Seq<char>, Seq<char>)>)>
    decreases routes.len(),
{
    if routes.len() == 0 {
        None
    } else if route_matches(routes[0], method, path) {
        Some((0int, match_segments(routes[0].pattern, path)->Some_0))
    } else {
        match first_match(routes.skip(1), method, path) {
            Some(found) => Some((found.0 + 1, found.1)),
            None => None,
        }
    }
}

/// The outcome of dispatching one request against the route table.
pub enum Dispatch {
    /// No registered route answers the request; no handler is consulted.
    NotFound,
    /// The first answering route: its position, its handler, and the
    /// parameters its pattern captured.
    Matched { index: usize, handler: Handler, params: RouteMatch },
}

/// An ordered route table: built once at startup, read-only while requests
/// are dispatched.
pub struct Router {
    routes: Vec<Route>,
}

impl View for Router {
    type V = Seq<RouteView>;

    closed spec fn view(&self) -> Seq<RouteView> {
        routes_view(self.routes@)
    }
}

/// Advancing past non-answering routes advances the first match: when no
/// route before `i` answers, the table's first match is at `i` if route `i`
/// answers, and the scan past `i` goes on unaffected; a scan past the whole
/// table means no match at all.
pub proof fn lemma_first_match_from_index(
    routes: Seq<RouteView>,
    method: Seq<char>,
    path: Seq<Seq<char>>,
    i: int,
)
    requires
        0 <= i <= routes.len(),
        forall|j: int| 0 <= j < i ==> !route_matches(#[trigger] routes[j], method, path),
    ensures
        i < routes.len() && route_matches(routes[i], method, path) ==> first_match(
            routes,
            method,
            path,
        ) == Some((i, match_segments(routes[i].pattern, path)->Some_0)),
        i == routes.len() ==> first_match(routes, method, path) is None,
    decreases i,
{
    if i == 0 {
        if routes.len() == 0 {
            assert(first_match(routes, method, path) is None);
        }
    } else {
        assert(!route_matches(routes[0], method, path));
        assert(forall|j: int|
            0 <= j < i - 1 ==> !route_matches(#[trigger] routes.skip(1)[j], method, path)) by {
            assert(forall|j: int|
                0 <= j < i - 1 ==> #[trigger] routes.skip(1)[j] == routes[j + 1]);
        }
        lemma_first_match_from_index(routes.skip(1), method, path, i - 1);
        if i < routes.len() && route_matches(routes[i], method, path) {
            assert(routes.skip(1)[i - 1] == routes[i]);
        }
    }
}

/// What a match of the table means: the found route answers the request
/// with exactly the found parameters, and no earlier route answers.
pub proof fn lemma_first_match_sound(routes: Seq<RouteView>, method: Seq<char>, path: Seq<Seq<char>>)
    ensures
        first_match(routes, method, path) matches Some(found) ==> {
            &&& 0 <= found.0 < routes.len()
            &&& route_matches(routes[found.0], method, path)
            &&& match_segments(routes[found.0].pattern, path) == Some(found.1)
            &&& forall|j: int| 0 <= j < found.0 ==> !route_matches(#[trigger] routes[j], method, path)
        },
    decreases routes.len(),
{
    if routes.len() > 0 && !route_matches(routes[0], method, path) {
        lemma_first_match_sound(routes.skip(1), method, path);
        if first_match(routes.skip(1), method, path) is Some {
            let found = first_match(routes.skip(1), method, path)->Some_0;
            assert(routes.skip(1)[found.0] == routes[found.0 + 1]);
            assert(forall|j: int|
                1 <= j < found.0 + 1 ==> #[trigger] routes[j] == routes.skip(1)[j - 1]);
        }
    }
}

/// A request no route answers is a miss, and a miss means no route answers:
/// dispatch invokes no handler on it.
pub proof fn lemma_first_match_none(routes: Seq<RouteView>, method: Seq<char>, path: Seq<Seq<char>>)
    ensures
        first_match(routes, method, path) is None <==> forall|j: int|
            0 <= j < routes.len() ==> !route_matches(#[trigger] routes[j], method, path),
    decreases routes.len(),
{
    if routes.len() > 0 {
        lemma_first_match_none(routes.skip(1), method, path);
        assert(forall|j: int|
            0 <= j < routes.len() - 1 ==> #[trigger] routes.skip(1)[j] == routes[j + 1]);
        if first_match(routes, method, path) is None {
            assert(forall|j: int|
                1 <= j < routes.len() ==> #[trigger] routes[j] == routes.skip(1)[j - 1]);
        }
    }
}

/// Dispatch is unaffected by routes that do not answer the request: when
/// route `i` is the only one that answers, it is the first match, wherever
/// in the table the others were registered.
pub proof fn lemma_unique_match(
    routes: Seq<RouteView>,
    method: Seq<char>,
    path: Seq<Seq<char>>,
    i: int,
)
    requires
        0 <= i < routes.len(),
        route_matches(routes[i], method, path),
        forall|j: int|
            0 <= j < routes.len() && j != i ==> !route_matches(#[trigger] routes[j], method, path),
    ensures
        first_match(routes, method, path) == Some((
            i,
            match_segments(routes[i].pattern, path)->Some_0,
        )),
{
    lemma_first_match_from_index(routes, method, path, i);
}

/// A pattern of literal segments alone answers exactly the path that spells
/// those literals, and captures nothing.
pub proof fn lemma_literal_pattern_matches(pattern: Seq<SegView>, path: Seq<Seq<char>>)
    requires
        forall|k: int| 0 <= k < pattern.len() ==> #[trigger] pattern[k] is Literal,
    ensures
        match_segments(pattern, path) is Some <==> (path.len() == pattern.len() && forall|k: int|
            0 <= k < pattern.len() ==> #[trigger] pattern[k] == SegView::Literal(path[k])),
        match_segments(pattern, path) is Some ==> match_segments(pattern, path) == Some(
            Seq::<(Seq<char>, Seq<char>)>::empty(),
        ),
    decreases pattern.len(),
{
    if pattern.len() > 0 {
        lemma_literal_pattern_matches(pattern.skip(1), path.skip(1));
        assert(forall|k: int|
            0 <= k < pattern.len() - 1 ==> #[trigger] pattern.skip(1)[k] == pattern[k + 1]);
        if path.len() > 0 {
            assert(forall|k: int|
                0 <= k < path.len() - 1 ==> #[trigger] path.skip(1)[k] == path[k + 1]);
        }
        if match_segments(pattern, path) is Some {
            assert(forall|k: int|
                1 <= k < pattern.len() ==> #[trigger] pattern[k] == pattern.skip(1)[k - 1]
                    && pattern.skip(1)[k - 1] == SegView::Literal(path.skip(1)[k - 1])
                    && path.skip(1)[k - 1] == path[k]);
        } else {
            if path.len() == pattern.len() && (forall|k: int|
                0 <= k < pattern.len() ==> #[trigger] pattern[k] == SegView::Literal(path[k])) {
                assert(pattern[0] == SegView::Literal(path[0]));
                assert(match_segments(pattern, path) is Some);
            }
        }
    }
}

/// A trailing catch-all consumes every remaining path segment into its one
/// parameter, joined with `/`: the last captured pair of any match of a
/// well-formed pattern that ends in `*name`.
pub proof fn lemma_catch_all_consumes_rest(
    pattern: Seq<SegView>,
    path: Seq<Seq<char>>,
    name: Seq<char>,
)
    requires
        pattern.len() > 0,
        wf_pattern(pattern),
        pattern.last() == SegView::CatchAll(name),
        match_segments(pattern, path) is Some,
    ensures
        path.len() >= pattern.len() - 1,
        match_segments(pattern, path)->Some_0.len() > 0,
        match_segments(pattern, path)->Some_0.last() == (
            name,
            join_slash(path.skip(pattern.len() - 1)),
        ),
    decreases pattern.len(),
{
    if pattern.len() == 1 {
        assert(pattern[0] == SegView::CatchAll(name));
        assert(path.skip(0) =~= path);
    } else {
        assert(!(pattern[0] is CatchAll));
        assert(pattern.skip(1).last() == pattern.last());
        assert(wf_pattern(pattern.skip(1))) by {
            assert(forall|k: int|
                0 <= k < pattern.len() - 1 ==> #[trigger] pattern.skip(1)[k] == pattern[k + 1]);
        }
        lemma_catch_all_consumes_rest(pattern.skip(1), path.skip(1), name);
        assert(path.skip(1).skip(pattern.len() - 2) =~= path.skip(pattern.len() - 1));
    }
}

impl Router {
    /// An empty route table.
    pub fn new() -> (router: Router)
        ensures
            router@ == Seq::<RouteView>::empty(),
    {
        let router = Router { routes: Vec::new() };
        proof {
            assert(router@ =~= Seq::<RouteView>::empty());
        }
        router
    }

    /// Parses the pattern string and appends the route; a pattern whose
    /// catch-all is not its final segment is rejected and the table is left
    /// as it was.
    pub fn register(&mut self, method: &str, pattern: &str, handler: Handler) -> (registered:
        Result<(), ConfigError>)
        ensures
            registered is Ok <==> wf_pattern(pattern_of(pattern@)),
            registered is Ok ==> final(self)@ == old(self)@.push(
                RouteView { method: method@, pattern: pattern_of(pattern@), handler },
            ),
            registered is Err ==> final(self)@ == old(self)@,
            registered matches Err(e) ==> e == ConfigError::CatchAllNotLast,
    {
        match Pattern::parse(pattern) {
            Ok(parsed) => {
                let route = Route { method: method.to_owned(), pattern: parsed, handler };
                let ghost prev = self.routes@;
                self.routes.push(route);
                proof {
                    lemma_routes_view_push(prev, self.routes@.last());
                    assert(self.routes@.last()@ == RouteView {
                        method: method@,
                        pattern: pattern_of(pattern@),
                        handler,
                    });
                }
                Ok(())
            },
            Err(error) => Err(error),
        }
    }

    /// Scans the table in registration order and returns the first route
    /// whose method and pattern answer the request, with its captured
    /// parameters; `NotFound` when none answers, and then no handler is
    /// consulted.
    pub fn dispatch(&self, method: &str, path: &str) -> (matched: Dispatch)
        ensures
            match matched {
                Dispatch::NotFound => first_match(self@, method@, split_slash(path@)) is None,
                Dispatch::Matched { index, handler, params } => {
                    &&& first_match(self@, method@, split_slash(path@)) == Some(
                        (index as int, params@),
                    )
                    &&& index < self@.len()
                    &&& handler == self@[index as int].handler
                },
            },
    {
        let segments = split_path(path);
        let owned_method = method.to_owned();
        let ghost pviews = views(segments@);
        let mut i: usize = 0;
        while i < self.routes.len()
            invariant
                i <= self.routes@.len(),
                owned_method@ == method@,
                pviews == split_slash(path@),
                views(segments@) == pviews,
                forall|j: int| 0 <= j < i ==> !route_matches(#[trigger] self@[j], method@, pviews),
            decreases self.routes@.len() - i,
        {
            proof {
                assert(self@[i as int] == self.routes@[i as int]@);
            }
            if string_eq(&self.routes[i].method, &owned_method) {
                match self.routes[i].pattern.match_segments_of(&segments) {
                    Some(params) => {
                        let handler = self.routes[i].handler;
                        proof {
                            lemma_first_match_from_index(self@, method@, pviews, i as int);
                        }
                        return Dispatch::Matched { index: i, handler, params };
                    },
                    None => {
                        proof {
                            assert(!route_matches(self@[i as int], method@, pviews));
                        }
                    },
                }
            } else {
                proof {
                    assert(!route_matches(self@[i as int], method@, pviews));
                }
            }
            i = i + 1;
        }
        proof {
            lemma_first_match_from_index(self@, method@, pviews, i as int);
        }
        Dispatch::NotFound
    }
}

} // verus!
