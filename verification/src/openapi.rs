use vstd::prelude::*;
use crate::text::{chars_of, chars_string, owned, str_eq, string_push};
use crate::route::Route;
use crate::router::{Router, entries_of};
use crate::json::{Json, JsonV, members_view, lemma_object_view};
use crate::json_text::{jv_text, to_text};
use crate::error::{ORPCError, ErrorCode, fresh_error, error_json, fresh_error_json, code_status};
use crate::meta::{members_insert, insert_member, member_pos, find_member, lemma_member_pos_from, member_value, lemma_members_insert_value};
use crate::client_sse::{find_char_from, lemma_find_char_from, strings_view};
use crate::procedure_error::{ProcedureError, procedure_error_to_orpc_error, answer_wire, lemma_answer_wire};
use crate::rpc::http_status_code;
use crate::text::push_str;

verus! {

/// HTTP methods that a route can declare.
#[derive(Debug, Clone, Copy, PartialEq, Eq, Structural)]
pub enum HttpMethod {
    Get,
    Post,
    Put,
    Delete,
    Patch,
    Head,
    Options,
}

/// The method whose upper-case name is `s`, if any.
pub open spec fn method_named(s: Seq<char>) -> Option<HttpMethod> {
    if s == "GET"@ {
        Some(HttpMethod::Get)
    } else if s == "POST"@ {
        Some(HttpMethod::Post)
    } else if s == "PUT"@ {
        Some(HttpMethod::Put)
    } else if s == "DELETE"@ {
        Some(HttpMethod::Delete)
    } else if s == "PATCH"@ {
        Some(HttpMethod::Patch)
    } else if s == "HEAD"@ {
        Some(HttpMethod::Head)
    } else if s == "OPTIONS"@ {
        Some(HttpMethod::Options)
    } else {
        None
    }
}

impl HttpMethod {
    /// The method whose upper-case name is `s` (`GET`, `POST`, ...), if any.
    pub fn from_name(s: &str) -> (r: Option<HttpMethod>)
        ensures
            r == method_named(s@),
    {
        if str_eq(s, "GET") {
            Some(HttpMethod::Get)
        } else if str_eq(s, "POST") {
            Some(HttpMethod::Post)
        } else if str_eq(s, "PUT") {
            Some(HttpMethod::Put)
        } else if str_eq(s, "DELETE") {
            Some(HttpMethod::Delete)
        } else if str_eq(s, "PATCH") {
            Some(HttpMethod::Patch)
        } else if str_eq(s, "HEAD") {
            Some(HttpMethod::Head)
        } else if str_eq(s, "OPTIONS") {
            Some(HttpMethod::Options)
        } else {
            None
        }
    }
}

/// A compiled segment of a path pattern.
#[derive(Debug, PartialEq, Eq)]
pub enum PathSegment {
    Literal(String),
    Param(String),
}

/// Model of a [`PathSegment`].
pub enum PatternV {
    Literal(Seq<char>),
    Param(Seq<char>),
}

impl View for PathSegment {
    type V = PatternV;

    open spec fn view(&self) -> PatternV {
        match self {
            PathSegment::Literal(s) => PatternV::Literal(s@),
            PathSegment::Param(s) => PatternV::Param(s@),
        }
    }
}

/// The models of a sequence of segments.
pub open spec fn pattern_view(p: Seq<PathSegment>) -> Seq<PatternV> {
    Seq::new(p.len(), |i: int| p[i]@)
}

/// Splitting state after reading `s`: the non-empty pieces between `/`
/// already closed, and the piece being read.
pub open spec fn split_state(s: Seq<char>) -> (Seq<Seq<char>>, Seq<char>)
    decreases s.len(),
{
    if s.len() == 0 {
        (Seq::empty(), Seq::empty())
    } else {
        let (ps, cur) = split_state(s.drop_last());
        if s.last() == '/' {
            (if cur.len() > 0 {
                ps.push(cur)
            } else {
                ps
            }, Seq::empty())
        } else {
            (ps, cur.push(s.last()))
        }
    }
}

/// The non-empty pieces of `s` between `/` characters, in order.
pub open spec fn path_parts(s: Seq<char>) -> Seq<Seq<char>> {
    let (ps, cur) = split_state(s);
    if cur.len() > 0 {
        ps.push(cur)
    } else {
        ps
    }
}

/// The segment a pattern piece compiles to: `{name}` is a parameter, anything
/// else a literal.
pub open spec fn compile_piece(p: Seq<char>) -> PatternV {
    if p.len() >= 2 && p[0] == '{' && p.last() == '}' {
        PatternV::Param(p.subrange(1, p.len() - 1))
    } else {
        PatternV::Literal(p)
    }
}

/// The compiled form of a path pattern.
pub open spec fn compile_pattern(pattern: Seq<char>) -> Seq<PatternV> {
    let parts = path_parts(pattern);
    Seq::new(parts.len(), |i: int| compile_piece(parts[i]))
}

/// The non-empty pieces of `s` between `/` characters (see [`path_parts`]).
pub(crate) fn split_path(s: &str) -> (r: Vec<String>)
    ensures
        r@.len() == path_parts(s@).len(),
        forall|i: int| 0 <= i < r@.len() ==> #[trigger] r@[i]@ == path_parts(s@)[i],
{
    let cs = chars_of(s);
    let n = cs.len();
    let mut parts: Vec<String> = Vec::new();
    let mut start: usize = 0;
    let mut i: usize = 0;
    while i < n
        invariant
            n == cs@.len(),
            cs@ == s@,
            start <= i <= n,
            split_state(cs@.take(i as int)).1 == cs@.subrange(start as int, i as int),
            parts@.len() == split_state(cs@.take(i as int)).0.len(),
            forall|j: int| 0 <= j < parts@.len() ==> #[trigger] parts@[j]@ == split_state(
                cs@.take(i as int),
            ).0[j],
        decreases n - i,
    {
        proof {
            assert(cs@.take(i + 1).drop_last() =~= cs@.take(i as int));
            assert(cs@.take(i + 1).last() == cs@[i as int]);
        }
        if cs[i] == '/' {
            if start < i {
                let piece = chars_string(&cs, start, i);
                parts.push(piece);
            }
            start = i + 1;
            proof {
                assert(cs@.subrange(start as int, i + 1) =~= Seq::<char>::empty());
            }
        } else {
            proof {
                assert(cs@.subrange(start as int, i + 1) =~= cs@.subrange(start as int, i as int).push(
                    cs@[i as int],
                ));
            }
        }
        i = i + 1;
    }
    proof {
        assert(cs@.take(n as int) =~= cs@);
    }
    if start < n {
        let piece = chars_string(&cs, start, n);
        parts.push(piece);
    }
    parts
}

fn compile_one(p: String) -> (r: PathSegment)
    ensures
        r@ == compile_piece(p@),
{
    let cs = chars_of(p.as_str());
    let n = cs.len();
    if n >= 2 && cs[0] == '{' && cs[n - 1] == '}' {
        PathSegment::Param(chars_string(&cs, 1, n - 1))
    } else {
        PathSegment::Literal(p)
    }
}

/// Parses a path pattern into segments: `"/users/{id}"` becomes
/// `[Literal("users"), Param("id")]`.
pub fn compile_path_pattern(pattern: &str) -> (r: Vec<PathSegment>)
    ensures
        pattern_view(r@) == compile_pattern(pattern@),
{
    let parts = split_path(pattern);
    let ghost pp = path_parts(pattern@);
    let mut out: Vec<PathSegment> = Vec::new();
    let mut parts = parts;
    let n = parts.len();
    let mut i: usize = 0;
    while i < n
        invariant
            n == parts@.len(),
            n == pp.len(),
            0 <= i <= n,
            forall|j: int| i <= j < n ==> #[trigger] parts@[j]@ == pp[j],
            out@.len() == i,
            forall|j: int| 0 <= j < i ==> #[trigger] out@[j]@ == compile_piece(pp[j]),
        decreases n - i,
    {
        let mut p = String::new();
        let ghost before = parts@;
        parts.set_and_swap(i, &mut p);
        proof {
            assert(p@ == pp[i as int]);
            assert forall|j: int| i + 1 <= j < n implies #[trigger] parts@[j]@ == pp[j] by {
                assert(parts@[j] == before[j]);
            }
        }
        out.push(compile_one(p));
        i = i + 1;
    }
    proof {
        assert(pattern_view(out@) =~= compile_pattern(pattern@));
    }
    out
}

/// Position of the first pair of `ps` named `k`, searching from `i`.
pub open spec fn name_pos_from(ps: Seq<(Seq<char>, Seq<char>)>, k: Seq<char>, i: int) -> Option<int>
    decreases ps.len() - i,
{
    if i < 0 || i >= ps.len() {
        None
    } else if ps[i].0 == k {
        Some(i)
    } else {
        name_pos_from(ps, k, i + 1)
    }
}

/// `ps` with `k` bound to `v`: the first pair named `k` gets the new value,
/// otherwise the pair is appended.
pub open spec fn bind(ps: Seq<(Seq<char>, Seq<char>)>, k: Seq<char>, v: Seq<char>) -> Seq<(Seq<char>, Seq<char>)> {
    match name_pos_from(ps, k, 0) {
        Some(i) => ps.update(i, (k, v)),
        None => ps.push((k, v)),
    }
}

/// The models of string pairs.
pub open spec fn pairs_view(ps: Seq<(String, String)>) -> Seq<(Seq<char>, Seq<char>)> {
    Seq::new(ps.len(), |i: int| (ps[i].0@, ps[i].1@))
}

/// No two pairs share a name.
pub open spec fn names_distinct(ps: Seq<(Seq<char>, Seq<char>)>) -> bool {
    forall|i: int, j: int| 0 <= i < j < ps.len() ==> #[trigger] ps[i].0 != #[trigger] ps[j].0
}

/// The parameters bound by matching `segs` against the first `n` parts.
pub open spec fn bound_params(segs: Seq<PatternV>, parts: Seq<Seq<char>>, n: int) -> Seq<(Seq<char>, Seq<char>)>
    decreases n,
{
    if n <= 0 {
        Seq::empty()
    } else {
        let ps = bound_params(segs, parts, n - 1);
        match segs[n - 1] {
            PatternV::Param(name) => bind(ps, name, parts[n - 1]),
            PatternV::Literal(_) => ps,
        }
    }
}

/// The parameters that a path yields against compiled segments, or `None`
/// when the path does not match: it must have as many pieces as there are
/// segments, and each literal must equal its piece.
pub open spec fn match_result(segs: Seq<PatternV>, path: Seq<char>) -> Option<Seq<(Seq<char>, Seq<char>)>> {
    let parts = path_parts(path);
    if parts.len() == segs.len() && forall|i: int|
        0 <= i < segs.len() ==> (#[trigger] segs[i] matches PatternV::Literal(l) ==> l == parts[i]) {
        Some(bound_params(segs, parts, segs.len() as int))
    } else {
        None
    }
}

/// Binds `k` to `v` in `ps` (see [`bind`]).
pub(crate) fn bind_param(ps: &mut Vec<(String, String)>, k: String, v: String)
    ensures
        pairs_view(final(ps)@) == bind(pairs_view(old(ps)@), k@, v@),
{
    let ghost before = pairs_view(ps@);
    let n = ps.len();
    let mut i: usize = 0;
    while i < n
        invariant
            n == ps@.len(),
            before == pairs_view(ps@),
            ps@ == old(ps)@,
            0 <= i <= n,
            name_pos_from(before, k@, 0) == name_pos_from(before, k@, i as int),
        decreases n - i,
    {
        if str_eq(ps[i].0.as_str(), k.as_str()) {
            ps.set(i, (k, v));
            proof {
                assert(pairs_view(ps@) =~= before.update(i as int, (k@, v@)));
            }
            return;
        }
        i = i + 1;
    }
    ps.push((k, v));
    proof {
        assert(pairs_view(ps@) =~= before.push((k@, v@)));
    }
}

/// Matches a URL path against compiled segments, giving the path parameters
/// (see [`match_result`]).
pub fn match_path(segments: &[PathSegment], path: &str) -> (r: Option<Vec<(String, String)>>)
    ensures
        match match_result(pattern_view(segments@), path@) {
            Some(ps) => r matches Some(v) && pairs_view(v@) == ps,
            None => r is None,
        },
{
    let ghost segs = pattern_view(segments@);
    let ghost pp = path_parts(path@);
    let parts = split_path(path);
    if parts.len() != segments.len() {
        return None;
    }
    let n = parts.len();
    let mut params: Vec<(String, String)> = Vec::new();
    let mut i: usize = 0;
    proof {
        assert(pairs_view(params@) =~= Seq::<(Seq<char>, Seq<char>)>::empty());
    }
    while i < n
        invariant
            n == parts@.len(),
            n == segments@.len(),
            segs == pattern_view(segments@),
            pp == path_parts(path@),
            pp.len() == n,
            forall|j: int| 0 <= j < n ==> #[trigger] parts@[j]@ == pp[j],
            0 <= i <= n,
            forall|j: int|
                0 <= j < i ==> (#[trigger] segs[j] matches PatternV::Literal(l) ==> l == pp[j]),
            pairs_view(params@) == bound_params(segs, pp, i as int),
        decreases n - i,
    {
        assert(parts@[i as int]@ == pp[i as int]);
        match &segments[i] {
            PathSegment::Literal(l) => {
                if !str_eq(l.as_str(), parts[i].as_str()) {
                    proof {
                        assert(segs[i as int] == PatternV::Literal(l@));
                        assert(!(segs[i as int] matches PatternV::Literal(l2) ==> l2 == pp[i as int]));
                    }
                    return None;
                }
            },
            PathSegment::Param(name) => {
                bind_param(&mut params, name.clone(), parts[i].clone());
            },
        }
        i = i + 1;
    }
    Some(params)
}

// ---------------------------------------------------------------------------
// The route index
// ---------------------------------------------------------------------------

/// A route entry: method and compiled path pattern, linked to a procedure key.
#[derive(Debug)]
pub struct CompiledRoute {
    pub method: HttpMethod,
    pub segments: Vec<PathSegment>,
    pub procedure_key: String,
}

/// Model of a [`CompiledRoute`].
pub struct CompiledV {
    pub method: HttpMethod,
    pub segments: Seq<PatternV>,
    pub key: Seq<char>,
}

impl View for CompiledRoute {
    type V = CompiledV;

    open spec fn view(&self) -> CompiledV {
        CompiledV {
            method: self.method,
            segments: pattern_view(self.segments@),
            key: self.procedure_key@,
        }
    }
}

/// The models of a sequence of compiled routes.
pub open spec fn compiled_view(rs: Seq<CompiledRoute>) -> Seq<CompiledV> {
    Seq::new(rs.len(), |i: int| rs[i]@)
}

/// The number of literal segments in `segs`.
pub open spec fn literal_count(segs: Seq<PatternV>) -> nat
    decreases segs.len(),
{
    if segs.len() == 0 {
        0
    } else {
        literal_count(segs.drop_last()) + if segs.last() is Literal {
            1nat
        } else {
            0nat
        }
    }
}

/// The compiled route of a procedure under `key`, when its route names a
/// known method and a path.
pub open spec fn compiled_of(key: Seq<char>, r: Route) -> Option<CompiledV> {
    match (r.method, r.path) {
        (Some(m), Some(p)) => match method_named(m@) {
            Some(hm) => Some(CompiledV { method: hm, segments: compile_pattern(p@), key }),
            None => None,
        },
        _ => None,
    }
}

/// The compiled routes of `es`, in order.
pub open spec fn collect_routes(es: Seq<(Seq<char>, Route)>) -> Seq<CompiledV>
    decreases es.len(),
{
    if es.len() == 0 {
        Seq::empty()
    } else {
        let rs = collect_routes(es.drop_last());
        match compiled_of(es.last().0, es.last().1) {
            Some(c) => rs.push(c),
            None => rs,
        }
    }
}

/// The routes of `rs` with exactly `c` literal segments, in order.
pub open spec fn with_count(rs: Seq<CompiledV>, c: nat) -> Seq<CompiledV>
    decreases rs.len(),
{
    if rs.len() == 0 {
        Seq::empty()
    } else {
        let w = with_count(rs.drop_last(), c);
        if literal_count(rs.last().segments) == c {
            w.push(rs.last())
        } else {
            w
        }
    }
}

/// The routes of `rs` with `hi`, then `hi - 1`, ..., then `lo` literal
/// segments; each group keeps the order of `rs`.
pub open spec fn groups_down(rs: Seq<CompiledV>, hi: int, lo: int) -> Seq<CompiledV>
    decreases hi - lo + 1,
{
    if lo > hi || lo < 0 {
        Seq::empty()
    } else {
        groups_down(rs, hi, lo + 1) + with_count(rs, lo as nat)
    }
}

/// The largest number of literal segments in any route of `rs` (0 if none).
pub open spec fn max_count(rs: Seq<CompiledV>) -> nat
    decreases rs.len(),
{
    if rs.len() == 0 {
        0
    } else {
        let m = max_count(rs.drop_last());
        let c = literal_count(rs.last().segments);
        if c > m {
            c
        } else {
            m
        }
    }
}

/// `rs` ordered by literal segment count, most first; routes with equal
/// counts keep their order.
pub open spec fn sorted_routes(rs: Seq<CompiledV>) -> Seq<CompiledV> {
    groups_down(rs, max_count(rs) as int, 0)
}

/// Index matching `(method, path)` pairs to procedure keys.
pub struct RouteIndex {
    routes: Vec<CompiledRoute>,
}

impl View for RouteIndex {
    type V = Seq<CompiledV>;

    closed spec fn view(&self) -> Seq<CompiledV> {
        compiled_view(self.routes@)
    }
}

/// The result of matching a request against the index.
pub struct RouteMatch<'a> {
    pub procedure_key: &'a str,
    pub path_params: Vec<(String, String)>,
}

/// `a` comes before `b` in the order of procedure keys: character by
/// character by code point, a proper prefix first.
pub open spec fn key_lt(a: Seq<char>, b: Seq<char>) -> bool
    decreases a.len(),
{
    if a.len() == 0 {
        b.len() > 0
    } else if b.len() == 0 {
        false
    } else if a[0] != b[0] {
        (a[0] as int) < (b[0] as int)
    } else {
        key_lt(a.drop_first(), b.drop_first())
    }
}

/// The key order is asymmetric.
proof fn lemma_key_lt_asym(a: Seq<char>, b: Seq<char>)
    ensures
        key_lt(a, b) ==> !key_lt(b, a),
    decreases a.len(),
{
    if a.len() > 0 && b.len() > 0 && a[0] == b[0] {
        lemma_key_lt_asym(a.drop_first(), b.drop_first());
    }
}

/// The key order is transitive.
proof fn lemma_key_lt_trans(a: Seq<char>, b: Seq<char>, c: Seq<char>)
    ensures
        key_lt(a, b) && key_lt(b, c) ==> key_lt(a, c),
    decreases a.len(),
{
    if a.len() > 0 && b.len() > 0 && c.len() > 0 {
        lemma_key_lt_trans(a.drop_first(), b.drop_first(), c.drop_first());
    }
}

/// Two different keys are ordered one way or the other.
proof fn lemma_key_lt_total(a: Seq<char>, b: Seq<char>)
    ensures
        a != b ==> key_lt(a, b) || key_lt(b, a),
    decreases a.len(),
{
    if a.len() > 0 && b.len() > 0 {
        if a[0] == b[0] {
            lemma_key_lt_total(a.drop_first(), b.drop_first());
            if a.drop_first() == b.drop_first() {
                assert(a =~= seq![a[0]] + a.drop_first());
                assert(b =~= seq![b[0]] + b.drop_first());
            }
        } else {
            assert((a[0] as int) != (b[0] as int));
        }
    } else if a.len() == 0 && b.len() == 0 {
        assert(a =~= b);
    }
}

/// Route `a` is at least as specific as route `b`: more literal segments,
/// or as many and a key that does not come after `b`'s.
pub open spec fn at_least_as_specific(a: CompiledV, b: CompiledV) -> bool {
    literal_count(a.segments) > literal_count(b.segments) || (literal_count(a.segments) == literal_count(
        b.segments,
    ) && !key_lt(b.key, a.key))
}

/// Any two routes are comparable, and the comparison is transitive.
proof fn lemma_specific_order(a: CompiledV, b: CompiledV, c: CompiledV)
    ensures
        at_least_as_specific(a, b) || at_least_as_specific(b, a),
        at_least_as_specific(a, b) && at_least_as_specific(b, c) ==> at_least_as_specific(a, c),
        at_least_as_specific(a, b) && at_least_as_specific(b, a) ==> a.key == b.key && literal_count(a.segments)
            == literal_count(b.segments),
{
    lemma_key_lt_asym(a.key, b.key);
    lemma_key_lt_total(a.key, b.key);
    lemma_key_lt_total(b.key, c.key);
    lemma_key_lt_total(a.key, c.key);
    lemma_key_lt_trans(c.key, b.key, a.key);
    lemma_key_lt_trans(c.key, a.key, b.key);
    lemma_key_lt_trans(b.key, c.key, a.key);
}

/// Whether key `a` comes before key `b` (see [`key_lt`]).
fn key_less(a: &str, b: &str) -> (r: bool)
    ensures
        r == key_lt(a@, b@),
{
    let x = chars_of(a);
    let y = chars_of(b);
    let mut i: usize = 0;
    proof {
        assert(x@.skip(0) =~= x@);
        assert(y@.skip(0) =~= y@);
    }
    while i < x.len() && i < y.len() && x[i] == y[i]
        invariant
            x@ == a@,
            y@ == b@,
            i <= x@.len(),
            i <= y@.len(),
            key_lt(a@, b@) == key_lt(x@.skip(i as int), y@.skip(i as int)),
        decreases x@.len() - i,
    {
        proof {
            assert(x@.skip(i as int).drop_first() =~= x@.skip(i + 1));
            assert(y@.skip(i as int).drop_first() =~= y@.skip(i + 1));
        }
        i = i + 1;
    }
    if i == x.len() {
        return i < y.len();
    }
    if i == y.len() {
        return false;
    }
    proof {
        assert(x@.skip(i as int)[0] == x@[i as int]);
        assert(y@.skip(i as int)[0] == y@[i as int]);
    }
    x[i] < y[i]
}

/// Route `rs[i]` is the match for method `m` at `path`: it serves the
/// request, and it is at least as specific as every route of `rs` that does.
pub open spec fn is_best_match(rs: Seq<CompiledV>, m: HttpMethod, path: Seq<char>, i: int) -> bool {
    &&& 0 <= i < rs.len()
    &&& route_serves(rs[i], m, path)
    &&& forall|j: int| 0 <= j < rs.len() && route_serves(#[trigger] rs[j], m, path) ==> at_least_as_specific(rs[i], rs[j])
}

/// Route `r` serves method `m` at `path`.
pub open spec fn route_serves(r: CompiledV, m: HttpMethod, path: Seq<char>) -> bool {
    r.method == m && match_result(r.segments, path) is Some
}

fn copy_segment(s: &PathSegment) -> (r: PathSegment)
    ensures
        r@ == s@,
{
    match s {
        PathSegment::Literal(l) => PathSegment::Literal(l.clone()),
        PathSegment::Param(p) => PathSegment::Param(p.clone()),
    }
}

fn copy_route(r: &CompiledRoute) -> (c: CompiledRoute)
    ensures
        c@ == r@,
{
    let mut segs: Vec<PathSegment> = Vec::new();
    let n = r.segments.len();
    for i in 0..n
        invariant
            n == r.segments@.len(),
            segs@.len() == i,
            forall|j: int| 0 <= j < i ==> #[trigger] segs@[j]@ == r.segments@[j]@,
    {
        segs.push(copy_segment(&r.segments[i]));
    }
    proof {
        assert(pattern_view(segs@) =~= pattern_view(r.segments@));
    }
    CompiledRoute { method: r.method, segments: segs, procedure_key: r.procedure_key.clone() }
}

fn count_literals(segs: &Vec<PathSegment>) -> (c: usize)
    ensures
        c == literal_count(pattern_view(segs@)),
{
    let ghost sv = pattern_view(segs@);
    let n = segs.len();
    let mut c: usize = 0;
    let mut i: usize = 0;
    while i < n
        invariant
            n == segs@.len(),
            sv == pattern_view(segs@),
            0 <= i <= n,
            c == literal_count(sv.take(i as int)),
            c <= i,
        decreases n - i,
    {
        proof {
            assert(sv.take(i + 1).drop_last() =~= sv.take(i as int));
            assert(sv.take(i + 1).last() == segs@[i as int]@);
        }
        match &segs[i] {
            PathSegment::Literal(_) => {
                c = c + 1;
            },
            PathSegment::Param(_) => {},
        }
        i = i + 1;
    }
    proof {
        assert(sv.take(n as int) =~= sv);
    }
    c
}

impl RouteIndex {
    /// The index of every procedure in `router` whose route names a known
    /// method and a path, ordered by literal segment count, most first (ties
    /// keep the router's order).
    pub fn build(router: &Router<Route>) -> (idx: RouteIndex)
        ensures
            idx@ == sorted_routes(collect_routes(router@)),
    {
        let entries = router.procedures();
        let ghost es = router@;
        let mut found: Vec<CompiledRoute> = Vec::new();
        let n = entries.len();
        let mut i: usize = 0;
        proof {
            assert(es.take(0) =~= Seq::<(Seq<char>, Route)>::empty());
        }
        while i < n
            invariant
                n == entries@.len(),
                entries_of(entries@) == es,
                0 <= i <= n,
                compiled_view(found@) == collect_routes(es.take(i as int)),
            decreases n - i,
        {
            proof {
                assert(es.take(i + 1).drop_last() =~= es.take(i as int));
                assert(es.take(i + 1).last() == (entries@[i as int].0@, entries@[i as int].1));
            }
            let key = &entries[i].0;
            let route = &entries[i].1;
            let ghost before = compiled_view(found@);
            match (&route.method, &route.path) {
                (Some(m), Some(p)) => match HttpMethod::from_name(m.as_str()) {
                    Some(hm) => {
                        let segs = compile_path_pattern(p.as_str());
                        found.push(CompiledRoute { method: hm, segments: segs, procedure_key: key.clone() });
                        proof {
                            assert(compiled_view(found@) =~= before.push(found@.last()@));
                        }
                    },
                    None => {},
                },
                _ => {},
            }
            i = i + 1;
        }
        proof {
            assert(es.take(n as int) =~= es);
        }
        let ghost rs = compiled_view(found@);
        // Literal counts, and the largest.
        let m = found.len();
        let mut counts: Vec<usize> = Vec::new();
        let mut max: usize = 0;
        let mut j: usize = 0;
        proof {
            assert(rs.take(0) =~= Seq::<CompiledV>::empty());
        }
        while j < m
            invariant
                m == found@.len(),
                rs == compiled_view(found@),
                0 <= j <= m,
                counts@.len() == j,
                forall|k: int| 0 <= k < j ==> #[trigger] counts@[k] == literal_count(rs[k].segments),
                max == max_count(rs.take(j as int)),
            decreases m - j,
        {
            let c = count_literals(&found[j].segments);
            proof {
                assert(rs.take(j + 1).drop_last() =~= rs.take(j as int));
                assert(rs.take(j + 1).last() == rs[j as int]);
            }
            counts.push(c);
            if c > max {
                max = c;
            }
            j = j + 1;
        }
        proof {
            assert(rs.take(m as int) =~= rs);
        }
        // Emit the groups from the largest count down to zero.
        let mut out: Vec<CompiledRoute> = Vec::new();
        let mut c: usize = max;
        let mut done = false;
        proof {
            assert(compiled_view(out@) =~= groups_down(rs, max as int, max as int + 1));
        }
        while !done
            invariant
                m == found@.len(),
                rs == compiled_view(found@),
                counts@.len() == m,
                forall|k: int| 0 <= k < m ==> #[trigger] counts@[k] == literal_count(rs[k].segments),
                max == max_count(rs),
                c <= max,
                !done ==> compiled_view(out@) == groups_down(rs, max as int, c as int + 1),
                done ==> compiled_view(out@) == groups_down(rs, max as int, 0),
            decreases c as int + if done { 0int } else { 1int },
        {
            let ghost prefix = compiled_view(out@);
            let mut k: usize = 0;
            proof {
                assert(rs.take(0) =~= Seq::<CompiledV>::empty());
                assert(compiled_view(out@) =~= prefix + with_count(rs.take(0), c as nat));
            }
            while k < m
                invariant
                    m == found@.len(),
                    rs == compiled_view(found@),
                    counts@.len() == m,
                    forall|l: int| 0 <= l < m ==> #[trigger] counts@[l] == literal_count(rs[l].segments),
                    0 <= k <= m,
                    compiled_view(out@) == prefix + with_count(rs.take(k as int), c as nat),
                decreases m - k,
            {
                proof {
                    assert(rs.take(k + 1).drop_last() =~= rs.take(k as int));
                    assert(rs.take(k + 1).last() == rs[k as int]);
                }
                if counts[k] == c {
                    let ghost before = compiled_view(out@);
                    out.push(copy_route(&found[k]));
                    proof {
                        assert(compiled_view(out@) =~= before.push(rs[k as int]));
                    }
                }
                k = k + 1;
            }
            proof {
                assert(rs.take(m as int) =~= rs);
                assert(groups_down(rs, max as int, c as int) == groups_down(rs, max as int, c as int + 1)
                    + with_count(rs, c as nat));
            }
            if c == 0 {
                done = true;
            } else {
                c = c - 1;
            }
        }
        RouteIndex { routes: out }
    }

    /// The procedure serving `method` at `path`, with the parameters its
    /// path binds: of the routes that serve the request, the most specific
    /// (most literal segments, then the first key in key order; see
    /// [`is_best_match`]). Which one wins does not depend on the order the
    /// routes were registered in.
    pub fn match_route(&self, method: HttpMethod, path: &str) -> (r: Option<RouteMatch<'_>>)
        ensures
            match r {
                Some(rm) => exists|i: int|
                    is_best_match(self@, method, path@, i) && rm.procedure_key@ == #[trigger] self@[i].key
                        && pairs_view(rm.path_params@) == match_result(self@[i].segments, path@).unwrap(),
                None => forall|j: int| 0 <= j < self@.len() ==> !route_serves(#[trigger] self@[j], method, path@),
            },
    {
        let ghost rs = self@;
        let n = self.routes.len();
        let mut best: Option<(usize, Vec<(String, String)>)> = None;
        let mut i: usize = 0;
        while i < n
            invariant
                n == self.routes@.len(),
                rs == self@,
                0 <= i <= n,
                match best {
                    None => forall|j: int| 0 <= j < i ==> !route_serves(#[trigger] rs[j], method, path@),
                    Some((b, ps)) => b < i && route_serves(rs[b as int], method, path@) && pairs_view(ps@)
                        == match_result(rs[b as int].segments, path@).unwrap() && forall|j: int|
                        0 <= j < i && route_serves(#[trigger] rs[j], method, path@) ==> at_least_as_specific(
                            rs[b as int],
                            rs[j],
                        ),
                },
            decreases n - i,
        {
            let route = &self.routes[i];
            proof {
                assert(rs[i as int] == route@);
            }
            if route.method == method {
                match match_path(route.segments.as_slice(), path) {
                    Some(params) => {
                        let replace = match &best {
                            None => true,
                            Some((b, _)) => {
                                let other = &self.routes[*b];
                                proof {
                                    assert(rs[*b as int] == other@);
                                }
                                let cb = count_literals(&other.segments);
                                let ci = count_literals(&route.segments);
                                ci > cb || (ci == cb && key_less(route.procedure_key.as_str(), other.procedure_key.as_str()))
                            },
                        };
                        proof {
                            lemma_specific_order(rs[i as int], rs[i as int], rs[i as int]);
                            match best {
                                Some((b, _)) => {
                                    if replace {
                                        assert(!at_least_as_specific(rs[b as int], rs[i as int]));
                                        assert forall|j: int|
                                            0 <= j <= i && route_serves(#[trigger] rs[j], method, path@) implies at_least_as_specific(
                                            rs[i as int],
                                            rs[j],
                                        ) by {
                                            lemma_specific_order(rs[i as int], rs[b as int], rs[j]);
                                        }
                                    } else {
                                        assert(at_least_as_specific(rs[b as int], rs[i as int]));
                                    }
                                },
                                None => {},
                            }
                        }
                        if replace {
                            best = Some((i, params));
                        }
                    },
                    None => {},
                }
            }
            i = i + 1;
        }
        match best {
            None => None,
            Some((b, ps)) => {
                proof {
                    assert(is_best_match(rs, method, path@, b as int));
                }
                Some(RouteMatch { procedure_key: self.routes[b].procedure_key.as_str(), path_params: ps })
            },
        }
    }
}

// ---------------------------------------------------------------------------
// Request decoding and responses
// ---------------------------------------------------------------------------

/// The name/value pairs that `serde_urlencoded` reads from query string
/// `qs`, in order, or, when it rejects the string, the text of its error.
pub uninterp spec fn urlencoded_pairs(qs: Seq<char>) -> Result<Seq<(Seq<char>, Seq<char>)>, Seq<char>>;

/// Parses a query string with `serde_urlencoded::from_str` into name/value
/// pairs. Trusted: the result is the crate's reading of `qs`, and on an error
/// the text of the crate's error.
#[verifier::external_body]
pub(crate) fn parse_query(qs: &str) -> (r: Result<Vec<(String, String)>, String>)
    ensures
        match urlencoded_pairs(qs@) {
            Ok(ps) => r matches Ok(v) && pairs_view(v@) == ps,
            Err(m) => r matches Err(e) && e@ == m,
        },
{
    serde_urlencoded::from_str::<Vec<(String, String)>>(qs).map_err(|e| e.to_string())
}

/// `ms` with every pair of `ps` bound, in order, as a string member.
pub open spec fn insert_strings(ms: Seq<(Seq<char>, JsonV)>, ps: Seq<(Seq<char>, Seq<char>)>) -> Seq<
    (Seq<char>, JsonV),
>
    decreases ps.len(),
{
    if ps.len() == 0 {
        ms
    } else {
        members_insert(insert_strings(ms, ps.drop_last()), ps.last().0, JsonV::Str(ps.last().1))
    }
}

/// `s` holds no `[`.
pub open spec fn no_open_bracket(s: Seq<char>) -> bool {
    forall|i: int| 0 <= i < s.len() ==> s[i] != '['
}

/// The segments of `s` read as a run of `[segment]` groups, each segment
/// non-empty and free of brackets; `None` when `s` is not such a run.
pub open spec fn bracket_groups(s: Seq<char>) -> Option<Seq<Seq<char>>>
    decreases s.len(),
{
    if s.len() == 0 {
        Some(Seq::empty())
    } else if s[0] != '[' {
        None
    } else {
        match find_char_from(s, ']', 1) {
            None => None,
            Some(j) => {
                proof {
                    lemma_find_char_from(s, ']', 1);
                }
                if j == 1 || !no_open_bracket(s.subrange(1, j)) {
                    None
                } else {
                    match bracket_groups(s.skip(j + 1)) {
                        Some(g) => Some(seq![s.subrange(1, j)] + g),
                        None => None,
                    }
                }
            },
        }
    }
}

/// The nesting path of a query parameter name in bracket notation:
/// `filter[name]` is `[filter, name]`, `a[b][c]` is `[a, b, c]`; a name that
/// is not a non-empty base followed by `[segment]` groups is its own path.
pub open spec fn query_key_path(k: Seq<char>) -> Seq<Seq<char>> {
    match find_char_from(k, '[', 0) {
        None => seq![k],
        Some(i) => if i == 0 {
            seq![k]
        } else {
            match bracket_groups(k.skip(i)) {
                Some(g) => seq![k.take(i)] + g,
                None => seq![k],
            }
        },
    }
}

/// The members of the object bound to `k` in `ms`, or none when `k` is
/// unbound or bound to something else.
pub open spec fn member_object(ms: Seq<(Seq<char>, JsonV)>, k: Seq<char>) -> Seq<(Seq<char>, JsonV)> {
    match member_pos(ms, k) {
        Some(j) => match ms[j].1 {
            JsonV::Object(im) => im,
            _ => Seq::empty(),
        },
        None => Seq::empty(),
    }
}

/// `ms` with string `v` set at `path`: the last name is bound to `v`; each
/// name before it is bound to an object (the one already bound there, or a
/// new one) that receives the rest of the path.
pub open spec fn set_nested(ms: Seq<(Seq<char>, JsonV)>, path: Seq<Seq<char>>, v: Seq<char>) -> Seq<
    (Seq<char>, JsonV),
>
    decreases path.len(),
{
    if path.len() == 0 {
        ms
    } else if path.len() == 1 {
        members_insert(ms, path[0], JsonV::Str(v))
    } else {
        members_insert(ms, path[0], JsonV::Object(set_nested(member_object(ms, path[0]), path.drop_first(), v)))
    }
}

/// `ms` with every query pair of `ps` set, in order, at the path its name
/// gives in bracket notation (see [`query_key_path`]).
pub open spec fn insert_query(ms: Seq<(Seq<char>, JsonV)>, ps: Seq<(Seq<char>, Seq<char>)>) -> Seq<
    (Seq<char>, JsonV),
>
    decreases ps.len(),
{
    if ps.len() == 0 {
        ms
    } else {
        set_nested(insert_query(ms, ps.drop_last()), query_key_path(ps.last().0), ps.last().1)
    }
}

/// `ms` with every member of `add` bound, in order.
pub open spec fn insert_all(ms: Seq<(Seq<char>, JsonV)>, add: Seq<(Seq<char>, JsonV)>) -> Seq<(Seq<char>, JsonV)>
    decreases add.len(),
{
    if add.len() == 0 {
        ms
    } else {
        members_insert(insert_all(ms, add.drop_last()), add.last().0, add.last().1)
    }
}

/// Methods whose requests carry a body.
pub open spec fn has_body(m: HttpMethod) -> bool {
    m is Post || m is Put || m is Patch
}

/// The merged members as an input: `null` when there are none.
pub open spec fn merged_input(ms: Seq<(Seq<char>, JsonV)>) -> JsonV {
    if ms.len() == 0 {
        JsonV::Null
    } else {
        JsonV::Object(ms)
    }
}

/// Why an OpenAPI request cannot be decoded.
pub enum OpenApiErrV {
    /// The query string was rejected; the parser's message.
    Query(Seq<char>),
    /// The body is no JSON; the parser's message.
    Body(Seq<char>),
}

/// The input of an OpenAPI request: path parameters, then query parameters
/// (nested along their bracket-notation paths, see [`insert_query`]), then (for `POST`, `PUT` and `PATCH` with a non-empty body) the members of
/// a JSON object body, merged in that order with later names overriding
/// earlier ones; a body that is no object is the whole input when there are no
/// parameters and is ignored otherwise; no parameters and no body give `null`.
pub open spec fn openapi_input(
    params: Seq<(Seq<char>, Seq<char>)>,
    query: Option<Seq<char>>,
    body_len: nat,
    parsed: Result<JsonV, Seq<char>>,
    m: HttpMethod,
) -> Result<JsonV, OpenApiErrV> {
    let m1 = insert_strings(Seq::empty(), params);
    let after_query = match query {
        Some(qs) => if qs.len() > 0 {
            match urlencoded_pairs(qs) {
                Ok(ps) => Ok(insert_query(m1, ps)),
                Err(e) => Err(e),
            }
        } else {
            Ok(m1)
        },
        None => Ok(m1),
    };
    match after_query {
        Err(e) => Err(OpenApiErrV::Query(e)),
        Ok(m2) => if has_body(m) && body_len > 0 {
            match parsed {
                Err(e) => Err(OpenApiErrV::Body(e)),
                Ok(JsonV::Object(bm)) => Ok(merged_input(insert_all(m2, bm))),
                Ok(other) => if m2.len() == 0 {
                    Ok(other)
                } else {
                    Ok(merged_input(m2))
                },
            }
        } else {
            Ok(merged_input(m2))
        },
    }
}

/// The model of an optional string slice.
pub open spec fn opt_str_view(o: Option<&str>) -> Option<Seq<char>> {
    match o {
        Some(s) => Some(s@),
        None => None,
    }
}

/// The model of a parse result.
pub open spec fn parsed_view(p: Result<Json, String>) -> Result<JsonV, Seq<char>> {
    match p {
        Ok(j) => Ok(j@),
        Err(e) => Err(e@),
    }
}

/// Binds every pair of `ps` as a string member of `ms`.
fn insert_string_pairs(ms: &mut Vec<(String, Json)>, ps: &Vec<(String, String)>)
    ensures
        members_view(final(ms)@) == insert_strings(members_view(old(ms)@), pairs_view(ps@)),
{
    let ghost m0 = members_view(ms@);
    let ghost pv = pairs_view(ps@);
    let n = ps.len();
    let mut i: usize = 0;
    proof {
        assert(pv.take(0) =~= Seq::<(Seq<char>, Seq<char>)>::empty());
    }
    while i < n
        invariant
            n == ps@.len(),
            pv == pairs_view(ps@),
            0 <= i <= n,
            members_view(ms@) == insert_strings(m0, pv.take(i as int)),
        decreases n - i,
    {
        proof {
            assert(pv.take(i + 1).drop_last() =~= pv.take(i as int));
            assert(pv.take(i + 1).last() == pv[i as int]);
        }
        insert_member(ms, ps[i].0.clone(), Json::String(ps[i].1.clone()));
        i = i + 1;
    }
    proof {
        assert(pv.take(n as int) =~= pv);
    }
}

/// The groups of `s` from `start` on (see [`bracket_groups`]).
fn bracket_groups_from(s: &Vec<char>, start: usize) -> (r: Option<Vec<String>>)
    requires
        start <= s@.len(),
    ensures
        match bracket_groups(s@.skip(start as int)) {
            Some(g) => r matches Some(v) && strings_view(v@) == g,
            None => r is None,
        },
    decreases s@.len() - start,
{
    let ghost t = s@.skip(start as int);
    let n = s.len();
    if start == n {
        let e: Vec<String> = Vec::new();
        proof {
            assert(strings_view(e@) =~= Seq::<Seq<char>>::empty());
        }
        return Some(e);
    }
    if s[start] != '[' {
        return None;
    }
    let mut j: usize = start + 1;
    while j < n && s[j] != ']'
        invariant
            start < j <= n,
            n == s@.len(),
            forall|l: int| start + 1 <= l < j ==> s@[l] != ']',
        decreases n - j,
    {
        j = j + 1;
    }
    proof {
        lemma_find_char_from(t, ']', 1);
    }
    if j == n {
        proof {
            assert(find_char_from(t, ']', 1) is None) by {
                if let Some(x) = find_char_from(t, ']', 1) {
                    assert(t[x] == s@[start + x]);
                }
            }
        }
        return None;
    }
    let ghost jr = j - start;
    proof {
        assert(find_char_from(t, ']', 1) == Some(jr)) by {
            match find_char_from(t, ']', 1) {
                Some(x) => {
                    if x < jr {
                        assert(t[x] == s@[start + x]);
                    } else if x > jr {
                        assert(t[jr] == s@[j as int]);
                    }
                },
                None => {
                    assert(t[jr] == s@[j as int]);
                },
            }
        }
        assert(t.subrange(1, jr) =~= s@.subrange(start + 1, j as int));
        assert(t.skip(jr + 1) =~= s@.skip(j + 1));
    }
    if j == start + 1 {
        return None;
    }
    let mut k: usize = start + 1;
    while k < j && s[k] != '['
        invariant
            start < k <= j,
            j < n,
            n == s@.len(),
            forall|l: int| start + 1 <= l < k ==> s@[l] != '[',
        decreases j - k,
    {
        k = k + 1;
    }
    if k < j {
        proof {
            assert(s@.subrange(start + 1, j as int)[k - start - 1] == '[');
        }
        return None;
    }
    proof {
        assert(no_open_bracket(s@.subrange(start + 1, j as int)));
    }
    let seg = chars_string(s, start + 1, j);
    match bracket_groups_from(s, j + 1) {
        None => None,
        Some(rest) => {
            let mut out: Vec<String> = Vec::new();
            out.push(seg);
            let mut rest = rest;
            let ghost rv = strings_view(rest@);
            out.append(&mut rest);
            proof {
                assert(strings_view(out@) =~= seq![s@.subrange(start + 1, j as int)] + rv);
            }
            Some(out)
        },
    }
}

/// The bracket-notation path of query parameter name `k` (see
/// [`query_key_path`]).
fn query_path(k: &str) -> (r: Vec<String>)
    ensures
        strings_view(r@) == query_key_path(k@),
{
    let cs = chars_of(k);
    let n = cs.len();
    let mut i: usize = 0;
    while i < n && cs[i] != '['
        invariant
            i <= n,
            n == cs@.len(),
            forall|l: int| 0 <= l < i ==> cs@[l] != '[',
        decreases n - i,
    {
        i = i + 1;
    }
    proof {
        lemma_find_char_from(k@, '[', 0);
    }
    let mut whole: Vec<String> = Vec::new();
    whole.push(owned(k));
    proof {
        assert(strings_view(whole@) =~= seq![k@]);
    }
    if i == n {
        proof {
            assert(find_char_from(k@, '[', 0) is None) by {
                if let Some(x) = find_char_from(k@, '[', 0) {
                    assert(k@[x] == cs@[x]);
                }
            }
        }
        return whole;
    }
    proof {
        assert(find_char_from(k@, '[', 0) == Some(i as int)) by {
            match find_char_from(k@, '[', 0) {
                Some(x) => {
                    if x < i {
                        assert(k@[x] == cs@[x]);
                    } else if x > i {
                        assert(k@[i as int] == cs@[i as int]);
                    }
                },
                None => {
                    assert(k@[i as int] == cs@[i as int]);
                },
            }
        }
    }
    if i == 0 {
        return whole;
    }
    proof {
        assert(cs@.skip(i as int) =~= k@.skip(i as int));
    }
    match bracket_groups_from(&cs, i) {
        None => whole,
        Some(g) => {
            let mut out: Vec<String> = Vec::new();
            out.push(chars_string(&cs, 0, i));
            let mut g = g;
            let ghost gv = strings_view(g@);
            out.append(&mut g);
            proof {
                assert(cs@.subrange(0, i as int) =~= k@.take(i as int));
                assert(strings_view(out@) =~= seq![k@.take(i as int)] + gv);
            }
            out
        },
    }
}

/// Sets string `v` at `path[i..]` in `ms` (see [`set_nested`]).
fn set_nested_at(ms: &mut Vec<(String, Json)>, path: &Vec<String>, i: usize, v: &String)
    requires
        i < path@.len(),
    ensures
        members_view(final(ms)@) == set_nested(members_view(old(ms)@), strings_view(path@).skip(i as int), v@),
    decreases path@.len() - i,
{
    let ghost pv = strings_view(path@).skip(i as int);
    proof {
        assert(pv[0] == path@[i as int]@);
    }
    if i == path.len() - 1 {
        insert_member(ms, path[i].clone(), Json::String(v.clone()));
        return;
    }
    let ghost m0 = members_view(ms@);
    let mut inner: Vec<(String, Json)> = Vec::new();
    proof {
        assert(members_view(inner@) =~= Seq::<(Seq<char>, JsonV)>::empty());
    }
    proof {
        lemma_member_pos_from(m0, pv[0], 0);
    }
    match find_member(ms, path[i].as_str()) {
        Some(j) => {
            proof {
                assert(m0[j as int].1 == ms@[j as int].1@);
            }
            let c = ms[j].1.copy();
            match c {
                Json::Object(im) => {
                    proof {
                        lemma_object_view(im);
                    }
                    inner = im;
                },
                _ => {},
            }
        },
        None => {},
    }
    proof {
        assert(members_view(inner@) == member_object(m0, pv[0]));
        assert(strings_view(path@).skip(i + 1) =~= pv.drop_first());
    }
    set_nested_at(&mut inner, path, i + 1, v);
    let ghost iv = members_view(inner@);
    let obj = Json::Object(inner);
    proof {
        lemma_object_view(inner);
    }
    insert_member(ms, path[i].clone(), obj);
}

/// Sets every query pair of `ps`, in order, at its bracket-notation path in
/// `ms` (see [`insert_query`]).
fn insert_query_pairs(ms: &mut Vec<(String, Json)>, ps: &Vec<(String, String)>)
    ensures
        members_view(final(ms)@) == insert_query(members_view(old(ms)@), pairs_view(ps@)),
{
    let ghost m0 = members_view(ms@);
    let ghost pv = pairs_view(ps@);
    let n = ps.len();
    let mut i: usize = 0;
    proof {
        assert(pv.take(0) =~= Seq::<(Seq<char>, Seq<char>)>::empty());
    }
    while i < n
        invariant
            n == ps@.len(),
            pv == pairs_view(ps@),
            0 <= i <= n,
            members_view(ms@) == insert_query(m0, pv.take(i as int)),
        decreases n - i,
    {
        proof {
            assert(pv.take(i + 1).drop_last() =~= pv.take(i as int));
            assert(pv.take(i + 1).last() == pv[i as int]);
        }
        let path = query_path(ps[i].0.as_str());
        proof {
            assert(strings_view(path@).skip(0) =~= strings_view(path@));
            assert(strings_view(path@).len() > 0) by {
                reveal_with_fuel(bracket_groups, 1);
            }
        }
        set_nested_at(ms, &path, 0, &ps[i].1);
        i = i + 1;
    }
    proof {
        assert(pv.take(n as int) =~= pv);
    }
}

/// Binds every member of `add`, in order, into `ms`.
fn insert_members(ms: &mut Vec<(String, Json)>, add: Vec<(String, Json)>)
    ensures
        members_view(final(ms)@) == insert_all(members_view(old(ms)@), members_view(add@)),
{
    let ghost m0 = members_view(ms@);
    let ghost av = members_view(add@);
    let mut add = add;
    let n = add.len();
    let mut i: usize = 0;
    proof {
        assert(av.take(0) =~= Seq::<(Seq<char>, JsonV)>::empty());
    }
    while i < n
        invariant
            n == add@.len(),
            av.len() == n,
            0 <= i <= n,
            forall|j: int| i <= j < n ==> (#[trigger] members_view(add@)[j]) == av[j],
            members_view(ms@) == insert_all(m0, av.take(i as int)),
        decreases n - i,
    {
        let mut e = (String::new(), Json::Null);
        let ghost before = add@;
        add.set_and_swap(i, &mut e);
        proof {
            assert(members_view(before)[i as int] == av[i as int]);
            assert(av.take(i + 1).drop_last() =~= av.take(i as int));
            assert(av.take(i + 1).last() == av[i as int]);
            assert forall|j: int| i + 1 <= j < n implies (#[trigger] members_view(add@)[j]) == av[j] by {
                assert(members_view(before)[j] == av[j]);
                assert(add@[j] == before[j]);
            }
        }
        let (k, v) = e;
        insert_member(ms, k, v);
        i = i + 1;
    }
    proof {
        assert(av.take(n as int) =~= av);
    }
}

fn merged_value(ms: Vec<(String, Json)>) -> (j: Json)
    ensures
        j@ == merged_input(members_view(ms@)),
{
    proof {
        lemma_object_view(ms);
    }
    if ms.len() == 0 {
        Json::Null
    } else {
        Json::Object(ms)
    }
}

/// Decodes an OpenAPI request into the procedure input (see
/// [`openapi_input`]). `parsed_body` is the body parsed as JSON (or the
/// parser's message); it is used only for methods with a body and a non-empty
/// body. A rejected query string gives a `BAD_REQUEST` error whose message
/// starts with `Invalid query string: ` and goes on with the parser's
/// message.
pub fn decode_openapi_request(
    path_params: &Vec<(String, String)>,
    query: Option<&str>,
    body: &[u8],
    parsed_body: Result<Json, String>,
    method: HttpMethod,
) -> (r: Result<Json, ORPCError>)
    ensures
        match openapi_input(pairs_view(path_params@), opt_str_view(query), body@.len(), parsed_view(parsed_body), method) {
            Ok(v) => r matches Ok(j) && j@ == v,
            Err(OpenApiErrV::Query(m)) => r matches Err(e) && fresh_error(
                e,
                ErrorCode::BadRequest,
                "Invalid query string: "@ + m,
            ),
            Err(OpenApiErrV::Body(m)) => r matches Err(e) && fresh_error(
                e,
                ErrorCode::BadRequest,
                "Invalid request body: "@ + m,
            ),
        },
{
    let mut merged: Vec<(String, Json)> = Vec::new();
    proof {
        assert(members_view(merged@) =~= Seq::<(Seq<char>, JsonV)>::empty());
    }
    insert_string_pairs(&mut merged, path_params);
    match query {
        Some(qs) => {
            if !qs.is_empty() {
                match parse_query(qs) {
                    Ok(pairs) => {
                        insert_query_pairs(&mut merged, &pairs);
                    },
                    Err(e) => {
                        let mut m = owned("Invalid query string: ");
                        push_str(&mut m, e.as_str());
                        return Err(ORPCError::from_message(ErrorCode::BadRequest, m));
                    },
                }
            }
        },
        None => {},
    }
    let with_body = match method {
        HttpMethod::Post | HttpMethod::Put | HttpMethod::Patch => true,
        _ => false,
    };
    if with_body && body.len() > 0 {
        match parsed_body {
            Err(e) => {
                let mut m = owned("Invalid request body: ");
                push_str(&mut m, e.as_str());
                return Err(ORPCError::from_message(ErrorCode::BadRequest, m));
            },
            Ok(Json::Object(bm)) => {
                proof {
                    lemma_object_view(bm);
                }
                insert_members(&mut merged, bm);
            },
            Ok(other) => {
                if merged.len() == 0 {
                    return Ok(other);
                }
            },
        }
    }
    Ok(merged_value(merged))
}

/// The response for a successful call: status 200 and the output value as
/// plain JSON text (no envelope).
pub fn encode_openapi_success(value: &Json) -> (r: (u16, String))
    ensures
        r.0 == 200,
        r.1@ == jv_text(value@),
{
    (200, to_text(value))
}

/// The response for an error: its status (or 500 when that is no valid HTTP
/// status) and the error as plain JSON text.
pub fn encode_openapi_error(err: &ORPCError) -> (r: (u16, String))
    ensures
        r.0 == crate::rpc::http_status(err.status),
        r.1@ == jv_text(error_json(*err)),
{
    (http_status_code(err.status), to_text(&err.to_value()))
}

/// The OpenAPI response for the first item a procedure produced: its output,
/// the error answering its failure, or `INTERNAL_SERVER_ERROR` when it
/// produced nothing.
pub fn openapi_response(first: Option<Result<Json, ProcedureError>>) -> (r: (u16, String))
    ensures
        match first {
            None => r.0 == code_status(ErrorCode::InternalServerError) && r.1@ == jv_text(
                fresh_error_json(ErrorCode::InternalServerError, "Procedure returned no output"@),
            ),
            Some(Ok(v)) => r.0 == 200 && r.1@ == jv_text(v@),
            Some(Err(e)) => r.0 == crate::rpc::http_status(answer_wire(e).0) && r.1@ == jv_text(
                answer_wire(e).1,
            ),
        },
{
    match first {
        None => {
            let err = ORPCError::internal_server_error("Procedure returned no output");
            proof {
                assert(error_json(err)->Object_0 =~= fresh_error_json(
                    ErrorCode::InternalServerError,
                    "Procedure returned no output"@,
                )->Object_0);
            }
            encode_openapi_error(&err)
        },
        Some(Ok(v)) => encode_openapi_success(&v),
        Some(Err(e)) => {
            let ghost pe = e;
            let err = procedure_error_to_orpc_error(e);
            proof {
                lemma_answer_wire(pe, err);
            }
            encode_openapi_error(&err)
        },
    }
}

/// Every route picked for count `c` has `c` literal segments.
proof fn lemma_with_count(rs: Seq<CompiledV>, c: nat)
    ensures
        forall|i: int| 0 <= i < with_count(rs, c).len() ==> literal_count(#[trigger] with_count(rs, c)[i].segments) == c,
    decreases rs.len(),
{
    if rs.len() > 0 {
        lemma_with_count(rs.drop_last(), c);
    }
}

/// The groups from `hi` down to `lo` have counts in that range, in
/// decreasing order.
proof fn lemma_groups_down(rs: Seq<CompiledV>, hi: int, lo: int)
    requires
        0 <= lo,
    ensures
        forall|i: int|
            0 <= i < groups_down(rs, hi, lo).len() ==> lo <= literal_count(
                #[trigger] groups_down(rs, hi, lo)[i].segments,
            ) <= hi,
        forall|i: int, j: int|
            0 <= i < j < groups_down(rs, hi, lo).len() ==> literal_count(
                #[trigger] groups_down(rs, hi, lo)[i].segments,
            ) >= literal_count(#[trigger] groups_down(rs, hi, lo)[j].segments),
    decreases hi - lo + 1,
{
    if lo <= hi {
        lemma_groups_down(rs, hi, lo + 1);
        lemma_with_count(rs, lo as nat);
        let g = groups_down(rs, hi, lo + 1);
        let w = with_count(rs, lo as nat);
        let all = groups_down(rs, hi, lo);
        assert(all == g + w);
        assert forall|i: int| 0 <= i < all.len() implies lo <= literal_count(#[trigger] all[i].segments) <= hi by {
            if i < g.len() {
                assert(all[i] == g[i]);
            } else {
                assert(all[i] == w[i - g.len()]);
            }
        }
        assert forall|i: int, j: int| 0 <= i < j < all.len() implies literal_count(
            #[trigger] all[i].segments,
        ) >= literal_count(#[trigger] all[j].segments) by {
            if j < g.len() {
                assert(all[i] == g[i]);
                assert(all[j] == g[j]);
            } else if i < g.len() {
                assert(all[i] == g[i]);
                assert(all[j] == w[j - g.len()]);
            } else {
                assert(all[i] == w[i - g.len()]);
                assert(all[j] == w[j - g.len()]);
            }
        }
    }
}

/// The index tries routes with more literal segments first: along the index,
/// literal segment counts never increase.
pub proof fn law_index_most_literals_first(rs: Seq<CompiledV>)
    ensures
        forall|i: int, j: int|
            0 <= i < j < sorted_routes(rs).len() ==> literal_count(#[trigger] sorted_routes(rs)[i].segments)
                >= literal_count(#[trigger] sorted_routes(rs)[j].segments),
{
    lemma_groups_down(rs, max_count(rs) as int, 0);
}

/// No route has more literal segments than the largest count.
proof fn lemma_max_count(rs: Seq<CompiledV>)
    ensures
        forall|i: int| 0 <= i < rs.len() ==> literal_count(#[trigger] rs[i].segments) <= max_count(rs),
    decreases rs.len(),
{
    if rs.len() > 0 {
        lemma_max_count(rs.drop_last());
        assert forall|i: int| 0 <= i < rs.len() implies literal_count(#[trigger] rs[i].segments) <= max_count(rs) by {
            if i < rs.len() - 1 {
                assert(rs[i] == rs.drop_last()[i]);
            }
        }
    }
}

/// The groups of `rs` are those of `rs` without its last route, plus that
/// route when its count is in range.
proof fn lemma_groups_len(rs: Seq<CompiledV>, hi: int, lo: int)
    requires
        0 <= lo,
        rs.len() > 0,
    ensures
        groups_down(rs, hi, lo).len() == groups_down(rs.drop_last(), hi, lo).len() + if lo <= literal_count(
            rs.last().segments,
        ) <= hi {
            1int
        } else {
            0int
        },
    decreases hi - lo + 1,
{
    if lo <= hi {
        lemma_groups_len(rs, hi, lo + 1);
    }
}

/// With every count at most `hi`, the groups from `hi` down to 0 hold every
/// route.
proof fn lemma_groups_all(rs: Seq<CompiledV>, hi: int)
    requires
        0 <= hi,
        forall|i: int| 0 <= i < rs.len() ==> literal_count(#[trigger] rs[i].segments) <= hi,
    ensures
        groups_down(rs, hi, 0).len() == rs.len(),
    decreases rs.len(),
{
    if rs.len() == 0 {
        lemma_groups_empty(rs, hi, 0);
    } else {
        assert forall|i: int| 0 <= i < rs.drop_last().len() implies literal_count(
            #[trigger] rs.drop_last()[i].segments,
        ) <= hi by {
            assert(rs.drop_last()[i] == rs[i]);
        }
        lemma_groups_all(rs.drop_last(), hi);
        lemma_groups_len(rs, hi, 0);
        assert(literal_count(rs[rs.len() - 1].segments) <= hi);
    }
}

/// There are no groups of no routes.
proof fn lemma_groups_empty(rs: Seq<CompiledV>, hi: int, lo: int)
    requires
        rs.len() == 0,
        0 <= lo,
    ensures
        groups_down(rs, hi, lo).len() == 0,
    decreases hi - lo + 1,
{
    if lo <= hi {
        lemma_groups_empty(rs, hi, lo + 1);
    }
}

/// The index keeps every route: it holds as many routes as were collected.
pub proof fn law_index_keeps_every_route(rs: Seq<CompiledV>)
    ensures
        sorted_routes(rs).len() == rs.len(),
{
    lemma_max_count(rs);
    lemma_groups_all(rs, max_count(rs) as int);
}

/// The most specific route wins: a route of the index is the match for a
/// request exactly when it serves it and no route serving it is more
/// specific; and two routes that are both the match have the same key and
/// as many literal segments, so the answer does not depend on which one a
/// search meets first.
pub proof fn law_most_specific_route_wins(rs: Seq<CompiledV>, m: HttpMethod, path: Seq<char>, i: int, k: int)
    requires
        is_best_match(rs, m, path, i),
        is_best_match(rs, m, path, k),
    ensures
        rs[i].key == rs[k].key,
        literal_count(rs[i].segments) == literal_count(rs[k].segments),
        forall|j: int|
            0 <= j < rs.len() && route_serves(#[trigger] rs[j], m, path) ==> literal_count(rs[j].segments)
                <= literal_count(rs[i].segments),
{
    lemma_specific_order(rs[i], rs[k], rs[i]);
}

/// Matching does not depend on the order of the routes: two route lists with
/// the same routes (in any order) give the match the same key, and, when no
/// two of their routes share a key, the same route.
pub proof fn law_matching_order_free(
    rs1: Seq<CompiledV>,
    rs2: Seq<CompiledV>,
    m: HttpMethod,
    path: Seq<char>,
    i1: int,
    i2: int,
)
    requires
        forall|r: CompiledV| rs1.contains(r) <==> rs2.contains(r),
        is_best_match(rs1, m, path, i1),
        is_best_match(rs2, m, path, i2),
    ensures
        rs1[i1].key == rs2[i2].key,
        (forall|a: int, b: int|
            0 <= a < rs1.len() && 0 <= b < rs1.len() && (#[trigger] rs1[a]).key == (#[trigger] rs1[b]).key
                ==> rs1[a] == rs1[b]) ==> rs1[i1] == rs2[i2],
{
    assert(rs1.contains(rs1[i1]));
    assert(rs2.contains(rs2[i2]));
    let a = choose|a: int| 0 <= a < rs2.len() && rs2[a] == rs1[i1];
    let b = choose|b: int| 0 <= b < rs1.len() && rs1[b] == rs2[i2];
    assert(route_serves(rs2[a], m, path));
    assert(route_serves(rs1[b], m, path));
    lemma_specific_order(rs1[i1], rs2[i2], rs1[i1]);
    if forall|x: int, y: int|
        0 <= x < rs1.len() && 0 <= y < rs1.len() && (#[trigger] rs1[x]).key == (#[trigger] rs1[y]).key ==> rs1[x]
            == rs1[y] {
        assert(rs1[b].key == rs1[i1].key);
    }
}

proof fn lemma_with_count_contains(rs: Seq<CompiledV>, c: nat, r: CompiledV)
    ensures
        with_count(rs, c).contains(r) <==> rs.contains(r) && literal_count(r.segments) == c,
    decreases rs.len(),
{
    if rs.len() > 0 {
        let p = rs.drop_last();
        lemma_with_count_contains(p, c, r);
        let w = with_count(p, c);
        if rs.contains(r) && literal_count(r.segments) == c {
            let k = choose|k: int| 0 <= k < rs.len() && rs[k] == r;
            if k < rs.len() - 1 {
                assert(p[k] == r);
                assert(p.contains(r));
                if literal_count(rs.last().segments) == c {
                    assert(w.push(rs.last()).contains(r)) by {
                        let q = choose|q: int| 0 <= q < w.len() && w[q] == r;
                        assert(w.push(rs.last())[q] == r);
                    }
                }
            } else {
                assert(w.push(rs.last())[w.len() as int] == r);
            }
        }
        if with_count(rs, c).contains(r) {
            if literal_count(rs.last().segments) == c {
                let q = choose|q: int| 0 <= q < w.len() + 1 && w.push(rs.last())[q] == r;
                if q < w.len() {
                    assert(w[q] == r);
                    assert(w.contains(r));
                    let k = choose|k: int| 0 <= k < p.len() && p[k] == r;
                    assert(rs[k] == r);
                } else {
                    assert(rs[rs.len() - 1] == r);
                }
            } else {
                let k = choose|k: int| 0 <= k < p.len() && p[k] == r;
                assert(rs[k] == r);
            }
        }
    }
}

proof fn lemma_groups_contains(rs: Seq<CompiledV>, hi: int, lo: int, r: CompiledV)
    requires
        0 <= lo,
    ensures
        groups_down(rs, hi, lo).contains(r) <==> rs.contains(r) && lo <= literal_count(r.segments) <= hi,
    decreases hi - lo + 1,
{
    if lo <= hi {
        lemma_groups_contains(rs, hi, lo + 1, r);
        lemma_with_count_contains(rs, lo as nat, r);
        let g = groups_down(rs, hi, lo + 1);
        let w = with_count(rs, lo as nat);
        assert(groups_down(rs, hi, lo) == g + w);
        if g.contains(r) {
            let q = choose|q: int| 0 <= q < g.len() && g[q] == r;
            assert((g + w)[q] == r);
        }
        if w.contains(r) {
            let q = choose|q: int| 0 <= q < w.len() && w[q] == r;
            assert((g + w)[g.len() + q] == r);
        }
        if (g + w).contains(r) {
            let q = choose|q: int| 0 <= q < (g + w).len() && (g + w)[q] == r;
            if q < g.len() {
                assert(g[q] == r);
            } else {
                assert(w[q - g.len()] == r);
            }
        }
    }
}

/// The index holds exactly the routes it was built from.
proof fn lemma_sorted_contains(rs: Seq<CompiledV>, r: CompiledV)
    ensures
        sorted_routes(rs).contains(r) <==> rs.contains(r),
{
    lemma_max_count(rs);
    lemma_groups_contains(rs, max_count(rs) as int, 0, r);
    if rs.contains(r) {
        let k = choose|k: int| 0 <= k < rs.len() && rs[k] == r;
        assert(literal_count(rs[k].segments) <= max_count(rs));
    }
}

proof fn lemma_collect_contains(es: Seq<(Seq<char>, Route)>, r: CompiledV)
    ensures
        collect_routes(es).contains(r) <==> exists|k: int|
            0 <= k < es.len() && compiled_of(#[trigger] es[k].0, es[k].1) == Some(r),
    decreases es.len(),
{
    if es.len() > 0 {
        let p = es.drop_last();
        lemma_collect_contains(p, r);
        let rs = collect_routes(p);
        if exists|k: int| 0 <= k < es.len() && compiled_of(#[trigger] es[k].0, es[k].1) == Some(r) {
            let k = choose|k: int| 0 <= k < es.len() && compiled_of(#[trigger] es[k].0, es[k].1) == Some(r);
            if k < es.len() - 1 {
                assert(compiled_of(p[k].0, p[k].1) == Some(r));
                let q = choose|q: int| 0 <= q < rs.len() && rs[q] == r;
                match compiled_of(es.last().0, es.last().1) {
                    Some(c) => {
                        assert(rs.push(c)[q] == r);
                    },
                    None => {},
                }
            } else {
                assert(rs.push(r)[rs.len() as int] == r);
            }
        }
        if collect_routes(es).contains(r) {
            match compiled_of(es.last().0, es.last().1) {
                Some(c) => {
                    let q = choose|q: int| 0 <= q < rs.len() + 1 && rs.push(c)[q] == r;
                    if q < rs.len() {
                        assert(rs[q] == r);
                        let k = choose|k: int| 0 <= k < p.len() && compiled_of(#[trigger] p[k].0, p[k].1) == Some(r);
                        assert(es[k] == p[k]);
                    } else {
                        assert(compiled_of(es[es.len() - 1].0, es[es.len() - 1].1) == Some(r));
                    }
                },
                None => {
                    let k = choose|k: int| 0 <= k < p.len() && compiled_of(#[trigger] p[k].0, p[k].1) == Some(r);
                    assert(es[k] == p[k]);
                },
            }
        }
    }
}

/// Matching a request against an index does not depend on the order in
/// which the routes were registered: two routers holding the same entries
/// (in any order) build indexes whose matches for any request have the same
/// procedure key.
pub proof fn law_index_order_free(
    es1: Seq<(Seq<char>, Route)>,
    es2: Seq<(Seq<char>, Route)>,
    m: HttpMethod,
    path: Seq<char>,
    i1: int,
    i2: int,
)
    requires
        forall|e: (Seq<char>, Route)| es1.contains(e) <==> es2.contains(e),
        is_best_match(sorted_routes(collect_routes(es1)), m, path, i1),
        is_best_match(sorted_routes(collect_routes(es2)), m, path, i2),
    ensures
        sorted_routes(collect_routes(es1))[i1].key == sorted_routes(collect_routes(es2))[i2].key,
{
    let rs1 = sorted_routes(collect_routes(es1));
    let rs2 = sorted_routes(collect_routes(es2));
    assert forall|r: CompiledV| rs1.contains(r) <==> rs2.contains(r) by {
        lemma_sorted_contains(collect_routes(es1), r);
        lemma_sorted_contains(collect_routes(es2), r);
        lemma_collect_contains(es1, r);
        lemma_collect_contains(es2, r);
        if exists|k: int| 0 <= k < es1.len() && compiled_of(#[trigger] es1[k].0, es1[k].1) == Some(r) {
            let k = choose|k: int| 0 <= k < es1.len() && compiled_of(#[trigger] es1[k].0, es1[k].1) == Some(r);
            assert(es1.contains(es1[k]));
            let q = choose|q: int| 0 <= q < es2.len() && es2[q] == es1[k];
            assert(compiled_of(es2[q].0, es2[q].1) == Some(r));
        }
        if exists|k: int| 0 <= k < es2.len() && compiled_of(#[trigger] es2[k].0, es2[k].1) == Some(r) {
            let k = choose|k: int| 0 <= k < es2.len() && compiled_of(#[trigger] es2[k].0, es2[k].1) == Some(r);
            assert(es2.contains(es2[k]));
            let q = choose|q: int| 0 <= q < es1.len() && es1[q] == es2[k];
            assert(compiled_of(es1[q].0, es1[q].1) == Some(r));
        }
    }
    law_matching_order_free(rs1, rs2, m, path, i1, i2);
}

/// After binding every member of `add` in order, the key of `add[i]` holds
/// its value when no later member of `add` has that key.
proof fn lemma_insert_all_last(ms: Seq<(Seq<char>, JsonV)>, add: Seq<(Seq<char>, JsonV)>, i: int)
    requires
        0 <= i < add.len(),
        forall|j: int| i < j < add.len() ==> (#[trigger] add[j]).0 != add[i].0,
    ensures
        member_value(insert_all(ms, add), add[i].0) == Some(add[i].1),
    decreases add.len(),
{
    let p = add.drop_last();
    lemma_members_insert_value(insert_all(ms, p), add.last().0, add.last().1, add[i].0);
    if i < add.len() - 1 {
        assert(add[add.len() - 1].0 != add[i].0);
        assert forall|j: int| i < j < p.len() implies (#[trigger] p[j]).0 != p[i].0 by {
            assert(p[j] == add[j]);
        }
        lemma_insert_all_last(ms, p, i);
    }
}

/// The body of a `POST`, `PUT` or `PATCH` request reaches the input: when the
/// body is a non-empty JSON object (and the query string, if any, is read),
/// the input is an object in which every key of the body holds the body's
/// value for it (the last one, when the body repeats the key), whatever the
/// path and query parameters.
pub proof fn law_body_members_reach_input(
    params: Seq<(Seq<char>, Seq<char>)>,
    query: Option<Seq<char>>,
    body_len: nat,
    bm: Seq<(Seq<char>, JsonV)>,
    m: HttpMethod,
)
    requires
        m == HttpMethod::Post || m == HttpMethod::Put || m == HttpMethod::Patch,
        body_len > 0,
        bm.len() > 0,
        match query {
            None => true,
            Some(q) => q.len() == 0 || urlencoded_pairs(q) is Ok,
        },
    ensures
        openapi_input(params, query, body_len, Ok(JsonV::Object(bm)), m) matches Ok(JsonV::Object(ms)) && forall|i: int|
            0 <= i < bm.len() && (forall|j: int| i < j < bm.len() ==> (#[trigger] bm[j]).0 != bm[i].0)
                ==> member_value(ms, #[trigger] bm[i].0) == Some(bm[i].1),
{
    let m1 = insert_strings(Seq::empty(), params);
    let m2 = match query {
        Some(qs) => if qs.len() > 0 {
            insert_query(m1, urlencoded_pairs(qs)->Ok_0)
        } else {
            m1
        },
        None => m1,
    };
    let all = insert_all(m2, bm);
    lemma_insert_all_last(m2, bm, bm.len() - 1);
    lemma_member_pos_from(all, bm[bm.len() - 1].0, 0);
    assert(all.len() > 0);
    assert(openapi_input(params, query, body_len, Ok(JsonV::Object(bm)), m) == Ok::<JsonV, OpenApiErrV>(
        JsonV::Object(all),
    ));
    assert forall|i: int|
        0 <= i < bm.len() && (forall|j: int| i < j < bm.len() ==> (#[trigger] bm[j]).0 != bm[i].0) implies member_value(
        all,
        #[trigger] bm[i].0,
    ) == Some(bm[i].1) by {
        lemma_insert_all_last(m2, bm, i);
    }
}

} // verus!
