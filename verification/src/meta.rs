use vstd::prelude::*;
use crate::json::{Json, JsonV, JsonNumber, NumberV, items_view, members_view, lemma_array_view, lemma_object_view, jv_as_u64, jv_as_str};
use crate::json_text::{jv_text, to_text};
use crate::error::{ORPCError, ErrorCode, fresh_error};
use crate::text::{owned, push_str, push_decimal, decimal, str_eq};

verus! {

/// Meta type identifiers of `@orpc/client`'s JSON serializer.
#[derive(Debug, Clone, Copy, PartialEq, Eq, Structural)]
pub enum MetaType {
    BigInt,
    Date,
    Nan,
    Undefined,
    Url,
    RegExp,
    JsSet,
    JsMap,
}

/// The meta type with wire identifier `v`.
pub open spec fn meta_type_of(v: u64) -> Option<MetaType> {
    if v == 0 {
        Some(MetaType::BigInt)
    } else if v == 1 {
        Some(MetaType::Date)
    } else if v == 2 {
        Some(MetaType::Nan)
    } else if v == 3 {
        Some(MetaType::Undefined)
    } else if v == 4 {
        Some(MetaType::Url)
    } else if v == 5 {
        Some(MetaType::RegExp)
    } else if v == 6 {
        Some(MetaType::JsSet)
    } else if v == 7 {
        Some(MetaType::JsMap)
    } else {
        None
    }
}

impl MetaType {
    /// The meta type with wire identifier `v`, if there is one.
    pub fn from_u64(v: u64) -> (r: Option<MetaType>)
        ensures
            r == meta_type_of(v),
    {
        match v {
            0 => Some(MetaType::BigInt),
            1 => Some(MetaType::Date),
            2 => Some(MetaType::Nan),
            3 => Some(MetaType::Undefined),
            4 => Some(MetaType::Url),
            5 => Some(MetaType::RegExp),
            6 => Some(MetaType::JsSet),
            7 => Some(MetaType::JsMap),
            _ => None,
        }
    }
}

/// A segment of a JSON path: an object key or an array index.
#[derive(Debug, PartialEq, Eq)]
pub enum PathSegment {
    Key(String),
    Index(usize),
}

/// Model of a [`PathSegment`].
pub enum SegV {
    Key(Seq<char>),
    Index(nat),
}

impl View for PathSegment {
    type V = SegV;

    open spec fn view(&self) -> SegV {
        match self {
            PathSegment::Key(k) => SegV::Key(k@),
            PathSegment::Index(i) => SegV::Index(*i as nat),
        }
    }
}

impl PathSegment {
    /// A copy of this segment.
    pub fn copy(&self) -> (r: PathSegment)
        ensures
            r@ == self@,
    {
        match self {
            PathSegment::Key(k) => PathSegment::Key(k.clone()),
            PathSegment::Index(i) => PathSegment::Index(*i),
        }
    }
}

/// The models of the segments of a path.
pub open spec fn path_view(p: Seq<PathSegment>) -> Seq<SegV> {
    Seq::new(p.len(), |i: int| p[i]@)
}

/// One parsed meta entry: a type and the path it applies to.
#[derive(Debug)]
pub struct MetaEntry {
    pub meta_type: MetaType,
    pub path: Vec<PathSegment>,
}

/// Model of a [`MetaEntry`].
pub struct EntryV {
    pub meta_type: MetaType,
    pub path: Seq<SegV>,
}

impl View for MetaEntry {
    type V = EntryV;

    open spec fn view(&self) -> EntryV {
        EntryV { meta_type: self.meta_type, path: path_view(self.path@) }
    }
}

/// The models of a sequence of entries.
pub open spec fn entries_view(es: Seq<MetaEntry>) -> Seq<EntryV> {
    Seq::new(es.len(), |i: int| es[i]@)
}

// ---------------------------------------------------------------------------
// Navigation in the model
// ---------------------------------------------------------------------------

/// Position of the first member with key `k`, searching from position `i`.
pub open spec fn member_pos_from(ms: Seq<(Seq<char>, JsonV)>, k: Seq<char>, i: int) -> Option<int>
    decreases ms.len() - i,
{
    if i < 0 || i >= ms.len() {
        None
    } else if ms[i].0 == k {
        Some(i)
    } else {
        member_pos_from(ms, k, i + 1)
    }
}

/// A position found by [`member_pos_from`] is in range, holds the key, and
/// no earlier position from `i` holds it.
pub proof fn lemma_member_pos_from(ms: Seq<(Seq<char>, JsonV)>, k: Seq<char>, i: int)
    ensures
        match member_pos_from(ms, k, i) {
            Some(j) => 0 <= i <= j < ms.len() && ms[j].0 == k && forall|l: int|
                i <= l < j ==> ms[l].0 != k,
            None => forall|l: int| 0 <= i <= l < ms.len() ==> ms[l].0 != k,
        },
    decreases ms.len() - i,
{
    if i < 0 || i >= ms.len() {
    } else if ms[i].0 == k {
    } else {
        lemma_member_pos_from(ms, k, i + 1);
    }
}

/// Position of the first member with key `k`.
pub open spec fn member_pos(ms: Seq<(Seq<char>, JsonV)>, k: Seq<char>) -> Option<int> {
    member_pos_from(ms, k, 0)
}

/// The child of `v` that segment `s` names, if it exists.
pub open spec fn jv_child(v: JsonV, s: SegV) -> Option<JsonV> {
    match s {
        SegV::Key(k) => match v {
            JsonV::Object(ms) => match member_pos(ms, k) {
                Some(i) => Some(ms[i].1),
                None => None,
            },
            _ => None,
        },
        SegV::Index(n) => match v {
            JsonV::Array(a) => if n < a.len() {
                Some(a[n as int])
            } else {
                None
            },
            _ => None,
        },
    }
}

/// `v` with the child that `s` names replaced by `c` (unchanged when there
/// is no such child).
pub open spec fn jv_put_child(v: JsonV, s: SegV, c: JsonV) -> JsonV {
    match s {
        SegV::Key(k) => match v {
            JsonV::Object(ms) => match member_pos(ms, k) {
                Some(i) => JsonV::Object(ms.update(i, (ms[i].0, c))),
                None => v,
            },
            _ => v,
        },
        SegV::Index(n) => match v {
            JsonV::Array(a) => if n < a.len() {
                JsonV::Array(a.update(n as int, c))
            } else {
                v
            },
            _ => v,
        },
    }
}

/// Follows `path` from `v`: the value reached, or the position in `path`
/// of the first segment that names no child.
pub open spec fn jv_navigate(v: JsonV, path: Seq<SegV>) -> Result<JsonV, int>
    decreases path.len(),
{
    if path.len() == 0 {
        Ok(v)
    } else {
        match jv_child(v, path[0]) {
            Some(c) => match jv_navigate(c, path.drop_first()) {
                Ok(t) => Ok(t),
                Err(j) => Err(j + 1),
            },
            None => Err(0),
        }
    }
}

/// `v` with the value at `path` replaced by `new` (unchanged when the path
/// does not exist).
pub open spec fn jv_set(v: JsonV, path: Seq<SegV>, new: JsonV) -> JsonV
    decreases path.len(),
{
    if path.len() == 0 {
        new
    } else {
        match jv_child(v, path[0]) {
            Some(c) => jv_put_child(v, path[0], jv_set(c, path.drop_first(), new)),
            None => v,
        }
    }
}

// ---------------------------------------------------------------------------
// Operations applied at the end of a path
// ---------------------------------------------------------------------------

/// The members of `ms` without those whose key is `k`.
pub open spec fn remove_members(ms: Seq<(Seq<char>, JsonV)>, k: Seq<char>) -> Seq<(Seq<char>, JsonV)>
    decreases ms.len(),
{
    if ms.len() == 0 {
        Seq::empty()
    } else {
        let r = remove_members(ms.drop_last(), k);
        if ms.last().0 == k {
            r
        } else {
            r.push(ms.last())
        }
    }
}

/// `ms` with key `k` bound to `v`: the first member with that key gets the
/// new value, or a new member is appended.
pub open spec fn members_insert(ms: Seq<(Seq<char>, JsonV)>, k: Seq<char>, v: JsonV) -> Seq<(Seq<char>, JsonV)> {
    match member_pos(ms, k) {
        Some(i) => ms.update(i, (k, v)),
        None => ms.push((k, v)),
    }
}

/// The object key a map entry's key becomes: a string as it is, any other
/// value as its JSON text.
pub open spec fn map_key_text(k: JsonV) -> Seq<char> {
    match k {
        JsonV::Str(s) => s,
        _ => jv_text(k),
    }
}

/// The members built from a serialized map `[[k, v], ...]`; elements that are
/// not two-element arrays are skipped, and a later key overrides an earlier one.
pub open spec fn pairs_to_members(a: Seq<JsonV>) -> Seq<(Seq<char>, JsonV)>
    decreases a.len(),
{
    if a.len() == 0 {
        Seq::empty()
    } else {
        let m = pairs_to_members(a.drop_last());
        match a.last() {
            JsonV::Array(kv) => if kv.len() == 2 {
                members_insert(m, map_key_text(kv[0]), kv[1])
            } else {
                m
            },
            _ => m,
        }
    }
}

/// What a map entry becomes: an array of pairs becomes an object; any other
/// value is left as it is.
pub open spec fn map_to_object(t: JsonV) -> JsonV {
    match t {
        JsonV::Array(a) => JsonV::Object(pairs_to_members(a)),
        _ => t,
    }
}

/// `t` with its child at `s` removed: an object loses the key, an array
/// element in range becomes `null`; anything else is left as it is.
pub open spec fn remove_child(t: JsonV, s: SegV) -> JsonV {
    match s {
        SegV::Key(k) => match t {
            JsonV::Object(ms) => JsonV::Object(remove_members(ms, k)),
            _ => t,
        },
        SegV::Index(n) => match t {
            JsonV::Array(a) => if n < a.len() {
                JsonV::Array(a.update(n as int, JsonV::Null))
            } else {
                t
            },
            _ => t,
        },
    }
}

/// An operation applied to the value at the end of a path.
pub enum PathOp {
    /// Remove the child named by the segment.
    RemoveChild(PathSegment),
    /// Turn a serialized map into an object.
    MapToObject,
    /// Put a value in place.
    Replace(Json),
}

/// Model of a [`PathOp`].
pub enum OpV {
    RemoveChild(SegV),
    MapToObject,
    Replace(JsonV),
}

impl View for PathOp {
    type V = OpV;

    open spec fn view(&self) -> OpV {
        match self {
            PathOp::RemoveChild(s) => OpV::RemoveChild(s@),
            PathOp::MapToObject => OpV::MapToObject,
            PathOp::Replace(j) => OpV::Replace(j@),
        }
    }
}

/// The result of applying `op` to `t`.
pub open spec fn op_apply(op: OpV, t: JsonV) -> JsonV {
    match op {
        OpV::RemoveChild(s) => remove_child(t, s),
        OpV::MapToObject => map_to_object(t),
        OpV::Replace(j) => j,
    }
}

impl PathOp {
    /// A copy of this operation's segment, when it removes a child.
    pub fn remove_child(s: &PathSegment) -> (op: PathOp)
        ensures
            op@ == OpV::RemoveChild(s@),
    {
        PathOp::RemoveChild(s.copy())
    }
}

// ---------------------------------------------------------------------------
// Executable navigation and updates
// ---------------------------------------------------------------------------

/// Position of the first member of `ms` whose key is `k`.
pub(crate) fn find_member(ms: &Vec<(String, Json)>, k: &str) -> (r: Option<usize>)
    ensures
        match r {
            Some(i) => member_pos(members_view(ms@), k@) == Some(i as int),
            None => member_pos(members_view(ms@), k@) is None,
        },
{
    let ghost mv = members_view(ms@);
    let n = ms.len();
    let mut i: usize = 0;
    while i < n
        invariant
            n == ms@.len(),
            mv == members_view(ms@),
            0 <= i <= n,
            member_pos(mv, k@) == member_pos_from(mv, k@, i as int),
        decreases n - i,
    {
        if str_eq(ms[i].0.as_str(), k) {
            return Some(i);
        }
        i = i + 1;
    }
    None
}

fn remove_members_exec(ms: Vec<(String, Json)>, k: &str) -> (r: Vec<(String, Json)>)
    ensures
        members_view(r@) == remove_members(members_view(ms@), k@),
{
    let ghost orig = members_view(ms@);
    let mut ms = ms;
    let mut out: Vec<(String, Json)> = Vec::new();
    let n = ms.len();
    let mut i: usize = 0;
    while i < n
        invariant
            n == ms@.len(),
            0 <= i <= n,
            orig.len() == n,
            forall|j: int| i <= j < n ==> (#[trigger] members_view(ms@)[j]) == orig[j],
            members_view(out@) == remove_members(orig.take(i as int), k@),
        decreases n - i,
    {
        let mut e = (String::new(), Json::Null);
        let ghost before_ms = ms@;
        ms.set_and_swap(i, &mut e);
        proof {
            assert(members_view(before_ms)[i as int] == orig[i as int]);
            assert(e.0@ == orig[i as int].0 && e.1@ == orig[i as int].1);
            assert(orig.take(i + 1).drop_last() =~= orig.take(i as int));
            assert forall|j: int| i + 1 <= j < n implies (#[trigger] members_view(ms@)[j]) == orig[j] by {
                assert(members_view(before_ms)[j] == orig[j]);
                assert(ms@[j] == before_ms[j]);
            }
        }
        if !str_eq(e.0.as_str(), k) {
            let ghost before = members_view(out@);
            out.push(e);
            proof {
                assert(members_view(out@) =~= before.push(orig[i as int]));
            }
        }
        i = i + 1;
    }
    proof {
        assert(orig.take(n as int) =~= orig);
    }
    out
}

/// Binds `k` to `v` in `ms` (see [`members_insert`]).
pub(crate) fn insert_member(ms: &mut Vec<(String, Json)>, k: String, v: Json)
    ensures
        members_view(final(ms)@) == members_insert(members_view(old(ms)@), k@, v@),
{
    let ghost before = members_view(ms@);
    proof {
        lemma_member_pos_from(before, k@, 0);
    }
    match find_member(ms, k.as_str()) {
        Some(i) => {
            ms.set(i, (k, v));
            proof {
                assert(members_view(ms@) =~= before.update(i as int, (k@, v@)));
            }
        },
        None => {
            ms.push((k, v));
            proof {
                assert(members_view(ms@) =~= before.push((k@, v@)));
            }
        },
    }
}

/// The object key for a map entry key (see [`map_key_text`]).
fn map_key(k: &Json) -> (r: String)
    ensures
        r@ == map_key_text(k@),
{
    match k {
        Json::String(s) => s.clone(),
        _ => to_text(k),
    }
}

fn pairs_to_object(a: Vec<Json>) -> (r: Vec<(String, Json)>)
    ensures
        members_view(r@) == pairs_to_members(items_view(a@)),
{
    let ghost orig = items_view(a@);
    let mut a = a;
    let mut out: Vec<(String, Json)> = Vec::new();
    let n = a.len();
    let mut i: usize = 0;
    while i < n
        invariant
            n == a@.len(),
            0 <= i <= n,
            orig.len() == n,
            forall|j: int| i <= j < n ==> (#[trigger] items_view(a@)[j]) == orig[j],
            members_view(out@) == pairs_to_members(orig.take(i as int)),
        decreases n - i,
    {
        let mut e = Json::Null;
        let ghost before_a = a@;
        a.set_and_swap(i, &mut e);
        proof {
            assert(items_view(before_a)[i as int] == orig[i as int]);
            assert(orig.take(i + 1).drop_last() =~= orig.take(i as int));
            assert(orig.take(i + 1).last() == orig[i as int]);
            assert forall|j: int| i + 1 <= j < n implies (#[trigger] items_view(a@)[j]) == orig[j] by {
                assert(items_view(before_a)[j] == orig[j]);
                assert(a@[j] == before_a[j]);
            }
        }
        match e {
            Json::Array(mut kv) => {
                proof {
                    lemma_array_view(kv);
                }
                if kv.len() == 2 {
                    let key = map_key(&kv[0]);
                    let mut value = Json::Null;
                    kv.set_and_swap(1, &mut value);
                    insert_member(&mut out, key, value);
                }
            },
            _ => {},
        }
        i = i + 1;
    }
    proof {
        assert(orig.take(n as int) =~= orig);
    }
    out
}

/// Applies `op` to `t` (see [`op_apply`]).
pub(crate) fn apply_op(t: Json, op: PathOp) -> (r: Json)
    ensures
        r@ == op_apply(op@, t@),
{
    match op {
        PathOp::Replace(j) => j,
        PathOp::MapToObject => match t {
            Json::Array(a) => {
                proof {
                    lemma_array_view(a);
                }
                let ms = pairs_to_object(a);
                proof {
                    lemma_object_view(ms);
                }
                Json::Object(ms)
            },
            other => other,
        },
        PathOp::RemoveChild(seg) => match seg {
            PathSegment::Key(k) => match t {
                Json::Object(ms) => {
                    proof {
                        lemma_object_view(ms);
                    }
                    let ms2 = remove_members_exec(ms, k.as_str());
                    proof {
                        lemma_object_view(ms2);
                    }
                    Json::Object(ms2)
                },
                other => other,
            },
            PathSegment::Index(n) => match t {
                Json::Array(mut a) => {
                    proof {
                        lemma_array_view(a);
                    }
                    let ghost before = items_view(a@);
                    if n < a.len() {
                        a.set(n, Json::Null);
                        proof {
                            lemma_array_view(a);
                            assert(items_view(a@) =~= before.update(n as int, JsonV::Null));
                        }
                    }
                    Json::Array(a)
                },
                other => other,
            },
        },
    }
}

/// Follows `path[i..end]` from `node` and applies `op` to the value reached.
/// On success the updated value is returned; otherwise the value comes back
/// unchanged together with the position of the first segment that names no
/// child.
pub(crate) fn update_at(node: Json, path: &Vec<PathSegment>, i: usize, end: usize, op: PathOp) -> (r:
    Result<Json, (Json, usize)>)
    requires
        i <= end <= path@.len(),
    ensures
        match jv_navigate(node@, path_view(path@).subrange(i as int, end as int)) {
            Ok(t) => r matches Ok(n) && n@ == jv_set(
                node@,
                path_view(path@).subrange(i as int, end as int),
                op_apply(op@, t),
            ),
            Err(j) => r matches Err((n, f)) && n@ == node@ && f == i + j,
        },
    decreases end - i,
{
    let ghost sub = path_view(path@).subrange(i as int, end as int);
    if i == end {
        proof {
            assert(sub.len() == 0);
        }
        return Ok(apply_op(node, op));
    }
    let ghost rest = path_view(path@).subrange(i + 1, end as int);
    proof {
        assert(sub[0] == path@[i as int]@);
        assert(sub.drop_first() =~= rest);
    }
    let ghost nv = node@;
    match node {
        Json::Object(mut ms) => {
            proof {
                lemma_object_view(ms);
            }
            let ghost mv = members_view(ms@);
            match &path[i] {
                PathSegment::Key(k) => {
                    match find_member(&ms, k.as_str()) {
                        Some(j) => {
                            proof {
                                lemma_member_pos_from(mv, k@, 0);
                            }
                            let (key, child) = ms.remove(j);
                            let ghost removed = ms@;
                            proof {
                                assert(mv[j as int] == (key@, child@));
                            }
                            let r = update_at(child, path, i + 1, end, op);
                            match r {
                                Ok(c2) => {
                                    let ghost c2v = c2@;
                                    ms.insert(j, (key, c2));
                                    proof {
                                        lemma_object_view(ms);
                                        assert(members_view(ms@) =~= mv.update(
                                            j as int,
                                            (mv[j as int].0, c2v),
                                        ));
                                    }
                                    Ok(Json::Object(ms))
                                },
                                Err((c, f)) => {
                                    let ghost cv = c@;
                                    ms.insert(j, (key, c));
                                    proof {
                                        lemma_object_view(ms);
                                        assert(members_view(ms@) =~= mv);
                                    }
                                    Err((Json::Object(ms), f))
                                },
                            }
                        },
                        None => Err((Json::Object(ms), i)),
                    }
                },
                PathSegment::Index(_) => Err((Json::Object(ms), i)),
            }
        },
        Json::Array(mut a) => {
            proof {
                lemma_array_view(a);
            }
            let ghost av = items_view(a@);
            match &path[i] {
                PathSegment::Index(n) => {
                    let n = *n;
                    if n < a.len() {
                        let child = a.remove(n);
                        proof {
                            assert(av[n as int] == child@);
                        }
                        let r = update_at(child, path, i + 1, end, op);
                        match r {
                            Ok(c2) => {
                                let ghost c2v = c2@;
                                a.insert(n, c2);
                                proof {
                                    lemma_array_view(a);
                                    assert(items_view(a@) =~= av.update(n as int, c2v));
                                }
                                Ok(Json::Array(a))
                            },
                            Err((c, f)) => {
                                a.insert(n, c);
                                proof {
                                    lemma_array_view(a);
                                    assert(items_view(a@) =~= av);
                                }
                                Err((Json::Array(a), f))
                            },
                        }
                    } else {
                        Err((Json::Array(a), i))
                    }
                },
                PathSegment::Key(_) => Err((Json::Array(a), i)),
            }
        },
        other => Err((other, i)),
    }
}

// ---------------------------------------------------------------------------
// Errors and the operations at a path
// ---------------------------------------------------------------------------

/// A failed navigation reports the position of a segment of the path.
pub proof fn lemma_navigate_err(v: JsonV, path: Seq<SegV>)
    ensures
        jv_navigate(v, path) matches Err(j) ==> 0 <= j < path.len(),
    decreases path.len(),
{
    if path.len() > 0 {
        match jv_child(v, path[0]) {
            Some(c) => lemma_navigate_err(c, path.drop_first()),
            None => {},
        }
    }
}

/// The message for a path segment that names no child.
pub open spec fn nav_message(s: SegV) -> Seq<char> {
    match s {
        SegV::Key(k) => "Meta path not found: "@ + k,
        SegV::Index(i) => "Meta index out of bounds: "@ + decimal(i),
    }
}

/// The `BAD_REQUEST` error for a path segment that names no child.
pub(crate) fn nav_error(s: &PathSegment) -> (e: ORPCError)
    ensures
        fresh_error(e, ErrorCode::BadRequest, nav_message(s@)),
{
    match s {
        PathSegment::Key(k) => {
            let mut m = owned("Meta path not found: ");
            push_str(&mut m, k.as_str());
            ORPCError::from_message(ErrorCode::BadRequest, m)
        },
        PathSegment::Index(i) => {
            let mut m = owned("Meta index out of bounds: ");
            push_decimal(&mut m, *i as u64);
            ORPCError::from_message(ErrorCode::BadRequest, m)
        },
    }
}

/// Result of applying `op` at the end of `path`: the new value, or the
/// segment that names no child.
pub open spec fn at_path(v: JsonV, path: Seq<SegV>, op: OpV) -> Result<JsonV, SegV> {
    match jv_navigate(v, path) {
        Ok(t) => Ok(jv_set(v, path, op_apply(op, t))),
        Err(j) => Err(path[j]),
    }
}

/// Result of marking the value at `path` undefined: the root becomes `null`;
/// otherwise the value is removed from its parent.
pub open spec fn remove_result(v: JsonV, path: Seq<SegV>) -> Result<JsonV, SegV> {
    if path.len() == 0 {
        Ok(JsonV::Null)
    } else {
        at_path(v, path.drop_last(), OpV::RemoveChild(path.last()))
    }
}

/// Result of turning the serialized map at `path` into an object.
pub open spec fn map_result(v: JsonV, path: Seq<SegV>) -> Result<JsonV, SegV> {
    at_path(v, path, OpV::MapToObject)
}

/// `root` after `r`: the new value on success, unchanged on failure; and the
/// error that reports a failure.
pub open spec fn path_outcome(
    old_root: JsonV,
    new_root: JsonV,
    spec_r: Result<JsonV, SegV>,
    r: Result<(), ORPCError>,
) -> bool {
    match spec_r {
        Ok(w) => new_root == w && r is Ok,
        Err(s) => new_root == old_root && (r matches Err(e) && fresh_error(
            e,
            ErrorCode::BadRequest,
            nav_message(s),
        )),
    }
}

fn run_at_path(root: &mut Json, path: &Vec<PathSegment>, end: usize, op: PathOp) -> (r: Result<(), ORPCError>)
    requires
        end <= path@.len(),
    ensures
        path_outcome(
            old(root)@,
            final(root)@,
            at_path(old(root)@, path_view(path@).subrange(0, end as int), op@),
            r,
        ),
{
    let mut v = Json::Null;
    std::mem::swap(root, &mut v);
    proof {
        lemma_navigate_err(v@, path_view(path@).subrange(0, end as int));
    }
    match update_at(v, path, 0, end, op) {
        Ok(w) => {
            *root = w;
            Ok(())
        },
        Err((w, f)) => {
            *root = w;
            Err(nav_error(&path[f]))
        },
    }
}

/// Marks the value at `path` undefined: removes it from its parent object,
/// nulls it in its parent array, or makes the root `null`.
pub fn remove_at_path(root: &mut Json, path: &Vec<PathSegment>) -> (r: Result<(), ORPCError>)
    ensures
        path_outcome(old(root)@, final(root)@, remove_result(old(root)@, path_view(path@)), r),
{
    let n = path.len();
    if n == 0 {
        *root = Json::Null;
        return Ok(());
    }
    let op = PathOp::remove_child(&path[n - 1]);
    proof {
        assert(path_view(path@).subrange(0, n - 1) =~= path_view(path@).drop_last());
    }
    run_at_path(root, path, n - 1, op)
}

/// Turns the serialized map `[[k, v], ...]` at `path` into an object.
pub fn transform_map_at_path(root: &mut Json, path: &Vec<PathSegment>) -> (r: Result<(), ORPCError>)
    ensures
        path_outcome(old(root)@, final(root)@, map_result(old(root)@, path_view(path@)), r),
{
    proof {
        assert(path_view(path@).subrange(0, path@.len() as int) =~= path_view(path@));
    }
    run_at_path(root, path, path.len(), PathOp::MapToObject)
}

/// Puts `value` at `path`, which must already exist.
pub fn set_at_path(root: &mut Json, path: &Vec<PathSegment>, value: Json) -> (r: Result<(), ORPCError>)
    ensures
        path_outcome(
            old(root)@,
            final(root)@,
            at_path(old(root)@, path_view(path@), OpV::Replace(value@)),
            r,
        ),
{
    proof {
        assert(path_view(path@).subrange(0, path@.len() as int) =~= path_view(path@));
    }
    run_at_path(root, path, path.len(), PathOp::Replace(value))
}

// ---------------------------------------------------------------------------
// Parsing the meta array
// ---------------------------------------------------------------------------

/// The path segment a wire value stands for: a string is a key, a
/// non-negative integer an index.
pub open spec fn seg_of(v: JsonV) -> Option<SegV> {
    match v {
        JsonV::Str(s) => Some(SegV::Key(s)),
        JsonV::Number(NumberV::PosInt(n)) => Some(SegV::Index((n as usize) as nat)),
        _ => None,
    }
}

/// The path that the wire values `a` stand for, if each is a segment.
pub open spec fn path_of(a: Seq<JsonV>) -> Option<Seq<SegV>> {
    if forall|i: int| 0 <= i < a.len() ==> (#[trigger] seg_of(a[i])) is Some {
        Some(Seq::new(a.len(), |i: int| seg_of(a[i]).unwrap()))
    } else {
        None
    }
}

/// The entry that a wire value `[type_id, ...path]` stands for, or the
/// message of the error that rejects it.
pub open spec fn entry_result(e: JsonV) -> Result<EntryV, Seq<char>> {
    match e {
        JsonV::Array(a) => if a.len() == 0 {
            Err("Empty meta entry"@)
        } else {
            match jv_as_u64(a[0]) {
                None => Err("Meta type must be a number"@),
                Some(t) => match meta_type_of(t) {
                    None => Err("Unknown meta type: "@ + decimal(t as nat)),
                    Some(mt) => match path_of(a.drop_first()) {
                        Some(p) => Ok(EntryV { meta_type: mt, path: p }),
                        None => Err("Meta path segment must be string or number"@),
                    },
                },
            }
        },
        _ => Err("Invalid meta entry: expected array"@),
    }
}

/// The entries that the wire meta array `es` stands for, or the message for
/// its first rejected entry.
pub open spec fn meta_result(es: Seq<JsonV>) -> Result<Seq<EntryV>, Seq<char>>
    decreases es.len(),
{
    if es.len() == 0 {
        Ok(Seq::empty())
    } else {
        match meta_result(es.drop_last()) {
            Err(m) => Err(m),
            Ok(r) => match entry_result(es.last()) {
                Ok(e) => Ok(r.push(e)),
                Err(m) => Err(m),
            },
        }
    }
}

/// Once a prefix of the meta array is rejected, the whole array is rejected
/// with the same message.
proof fn lemma_meta_result_prefix_err(es: Seq<JsonV>, k: int)
    requires
        0 <= k <= es.len(),
        meta_result(es.take(k)) is Err,
    ensures
        meta_result(es) == meta_result(es.take(k)),
    decreases es.len() - k,
{
    if k < es.len() {
        assert(es.take(k + 1).drop_last() =~= es.take(k));
        lemma_meta_result_prefix_err(es, k + 1);
    } else {
        assert(es.take(k) =~= es);
    }
}

/// The segment a wire value stands for.
fn parse_segment(v: &Json) -> (r: Option<PathSegment>)
    ensures
        match seg_of(v@) {
            Some(s) => r matches Some(p) && p@ == s,
            None => r is None,
        },
{
    if let Some(s) = v.as_str() {
        Some(PathSegment::Key(s.clone()))
    } else if let Some(n) = v.as_u64() {
        Some(PathSegment::Index(n as usize))
    } else {
        None
    }
}

/// Parses a path given as wire values: each must be a string (a key) or a
/// non-negative integer (an index).
pub fn parse_path(segments: &[Json]) -> (r: Result<Vec<PathSegment>, ORPCError>)
    ensures
        match path_of(items_view(segments@)) {
            Some(p) => r matches Ok(v) && path_view(v@) == p,
            None => r matches Err(e) && fresh_error(
                e,
                ErrorCode::BadRequest,
                "Meta path segment must be string or number"@,
            ),
        },
{
    let ghost a = items_view(segments@);
    let mut path: Vec<PathSegment> = Vec::new();
    let n = segments.len();
    let mut i: usize = 0;
    while i < n
        invariant
            n == segments@.len(),
            a == items_view(segments@),
            0 <= i <= n,
            path@.len() == i,
            forall|j: int| 0 <= j < i ==> (#[trigger] seg_of(a[j])) is Some && path@[j]@ == seg_of(a[j]).unwrap(),
        decreases n - i,
    {
        match parse_segment(&segments[i]) {
            Some(seg) => {
                path.push(seg);
            },
            None => {
                proof {
                    assert(a[i as int] == segments@[i as int]@);
                    assert(seg_of(a[i as int]) is None);
                }
                return Err(ORPCError::bad_request("Meta path segment must be string or number"));
            },
        }
        i = i + 1;
    }
    proof {
        assert(path_view(path@) =~= path_of(a).unwrap());
    }
    Ok(path)
}

/// Parses one meta entry `[type_id, ...path]`, given as the elements of the
/// entry's array.
pub fn parse_single_entry(entry: &[Json]) -> (r: Result<MetaEntry, ORPCError>)
    ensures
        match entry_result(JsonV::Array(items_view(entry@))) {
            Ok(ev) => r matches Ok(me) && me@ == ev,
            Err(m) => r matches Err(e) && fresh_error(e, ErrorCode::BadRequest, m),
        },
{
    let ghost a = items_view(entry@);
    if entry.len() == 0 {
        return Err(ORPCError::bad_request("Empty meta entry"));
    }
    let type_id = match entry[0].as_u64() {
        Some(t) => t,
        None => return Err(ORPCError::bad_request("Meta type must be a number")),
    };
    let meta_type = match MetaType::from_u64(type_id) {
        Some(mt) => mt,
        None => {
            let mut m = owned("Unknown meta type: ");
            push_decimal(&mut m, type_id);
            return Err(ORPCError::from_message(ErrorCode::BadRequest, m));
        },
    };
    let ghost rest = a.drop_first();
    let mut path: Vec<PathSegment> = Vec::new();
    let n = entry.len();
    let mut i: usize = 1;
    while i < n
        invariant
            n == entry@.len(),
            a == items_view(entry@),
            rest == a.drop_first(),
            a.len() > 0,
            jv_as_u64(a[0]) == Some(type_id),
            meta_type_of(type_id) == Some(meta_type),
            1 <= i <= n,
            path@.len() == i - 1,
            forall|j: int| 0 <= j < i - 1 ==> (#[trigger] seg_of(rest[j])) is Some && path@[j]@
                == seg_of(rest[j]).unwrap(),
        decreases n - i,
    {
        match parse_segment(&entry[i]) {
            Some(seg) => {
                path.push(seg);
            },
            None => {
                proof {
                    assert(rest[i - 1] == a[i as int]);
                    assert(a[i as int] == entry@[i as int]@);
                    assert(seg_of(rest[i - 1]) is None);
                    assert(path_of(rest) is None);
                    assert(jv_as_u64(a[0]) == Some(type_id));
                    assert(meta_type_of(type_id) == Some(meta_type));
                    assert(entry_result(JsonV::Array(a)) == Err::<EntryV, Seq<char>>(
                        "Meta path segment must be string or number"@,
                    ));
                }
                return Err(ORPCError::bad_request("Meta path segment must be string or number"));
            },
        }
        i = i + 1;
    }
    proof {
        assert(path_of(rest) is Some);
        assert(path_view(path@) =~= path_of(rest).unwrap());
    }
    Ok(MetaEntry { meta_type, path })
}

/// Parses the wire meta array `[[type_id, ...path], ...]`.
pub fn parse_meta(meta: &[Json]) -> (r: Result<Vec<MetaEntry>, ORPCError>)
    ensures
        match meta_result(items_view(meta@)) {
            Ok(evs) => r matches Ok(es) && entries_view(es@) == evs,
            Err(m) => r matches Err(e) && fresh_error(e, ErrorCode::BadRequest, m),
        },
{
    let ghost mv = items_view(meta@);
    let mut out: Vec<MetaEntry> = Vec::new();
    proof {
        assert(mv.take(0) =~= Seq::<JsonV>::empty());
        assert(entries_view(out@) =~= Seq::<EntryV>::empty());
    }
    let n = meta.len();
    let mut i: usize = 0;
    while i < n
        invariant
            n == meta@.len(),
            mv == items_view(meta@),
            0 <= i <= n,
            meta_result(mv.take(i as int)) == Ok::<Seq<EntryV>, Seq<char>>(entries_view(out@)),
        decreases n - i,
    {
        proof {
            assert(mv.take(i + 1).drop_last() =~= mv.take(i as int));
            assert(mv.take(i + 1).last() == mv[i as int]);
        }
        let arr = match meta[i].as_array() {
            Some(a) => a,
            None => {
                proof {
                    lemma_meta_result_prefix_err(mv, i as int + 1);
                }
                return Err(ORPCError::bad_request("Invalid meta entry: expected array"));
            },
        };
        proof {
            assert(mv[i as int] == JsonV::Array(items_view(arr@)));
        }
        match parse_single_entry(arr.as_slice()) {
            Ok(e) => {
                let ghost before = entries_view(out@);
                out.push(e);
                proof {
                    assert(entries_view(out@) =~= before.push(e@));
                }
            },
            Err(e) => {
                proof {
                    lemma_meta_result_prefix_err(mv, i as int + 1);
                }
                return Err(e);
            },
        }
        i = i + 1;
    }
    proof {
        assert(mv.take(n as int) =~= mv);
    }
    Ok(out)
}

// ---------------------------------------------------------------------------
// Applying parsed entries
// ---------------------------------------------------------------------------

/// The effect of one entry on `v`: `Undefined` removes the value at its
/// path, `JsMap` turns the serialized map at its path into an object, and
/// every other type leaves `v` as it is.
pub open spec fn apply_entry(v: JsonV, e: EntryV) -> Result<JsonV, SegV> {
    match e.meta_type {
        MetaType::Undefined => remove_result(v, e.path),
        MetaType::JsMap => map_result(v, e.path),
        _ => Ok(v),
    }
}

/// The value after applying `es` to `v` in order, and the segment that
/// stopped them, if one did; the entries before it stay applied.
pub open spec fn apply_entries(v: JsonV, es: Seq<EntryV>) -> (JsonV, Option<SegV>)
    decreases es.len(),
{
    if es.len() == 0 {
        (v, None)
    } else {
        let (w, f) = apply_entries(v, es.drop_last());
        if f is Some {
            (w, f)
        } else {
            match apply_entry(w, es.last()) {
                Ok(w2) => (w2, None),
                Err(s) => (w, Some(s)),
            }
        }
    }
}

/// Once a prefix of the entries stops, the whole list stops there.
proof fn lemma_apply_entries_prefix_stop(v: JsonV, es: Seq<EntryV>, k: int)
    requires
        0 <= k <= es.len(),
        apply_entries(v, es.take(k)).1 is Some,
    ensures
        apply_entries(v, es) == apply_entries(v, es.take(k)),
    decreases es.len() - k,
{
    if k < es.len() {
        assert(es.take(k + 1).drop_last() =~= es.take(k));
        lemma_apply_entries_prefix_stop(v, es, k + 1);
    } else {
        assert(es.take(k) =~= es);
    }
}

/// Applies the parsed meta entries to `value`, in order.
pub fn apply_meta(value: &mut Json, entries: &[MetaEntry]) -> (r: Result<(), ORPCError>)
    ensures
        final(value)@ == apply_entries(old(value)@, entries_view(entries@)).0,
        match apply_entries(old(value)@, entries_view(entries@)).1 {
            None => r is Ok,
            Some(s) => r matches Err(e) && fresh_error(e, ErrorCode::BadRequest, nav_message(s)),
        },
{
    let ghost v0 = value@;
    let ghost ev = entries_view(entries@);
    let n = entries.len();
    let mut i: usize = 0;
    proof {
        assert(ev.take(0) =~= Seq::<EntryV>::empty());
    }
    while i < n
        invariant
            n == entries@.len(),
            ev == entries_view(entries@),
            v0 == old(value)@,
            0 <= i <= n,
            apply_entries(v0, ev.take(i as int)) == (value@, None::<SegV>),
        decreases n - i,
    {
        proof {
            assert(ev.take(i + 1).drop_last() =~= ev.take(i as int));
            assert(ev.take(i + 1).last() == entries@[i as int]@);
        }
        let entry = &entries[i];
        let ghost before = value@;
        let res = match entry.meta_type {
            MetaType::Undefined => remove_at_path(value, &entry.path),
            MetaType::JsMap => transform_map_at_path(value, &entry.path),
            _ => Ok(()),
        };
        match res {
            Ok(()) => {},
            Err(e) => {
                proof {
                    let t = ev.take(i + 1);
                    assert(apply_entries(v0, t.drop_last()) == (before, None::<SegV>));
                    assert(value@ == before);
                    let s = apply_entry(before, t.last())->Err_0;
                    assert(apply_entry(before, t.last()) == Err::<JsonV, SegV>(s));
                    assert(apply_entries(v0, t) == (before, Some(s)));
                    lemma_apply_entries_prefix_stop(v0, ev, i + 1);
                }
                return Err(e);
            },
        }
        i = i + 1;
    }
    proof {
        assert(ev.take(n as int) =~= ev);
    }
    Ok(())
}

// ---------------------------------------------------------------------------
// Laws of the meta transformations
// ---------------------------------------------------------------------------

/// Positions of a key are unchanged when only values change.
proof fn lemma_member_pos_same_keys(
    ms: Seq<(Seq<char>, JsonV)>,
    ns: Seq<(Seq<char>, JsonV)>,
    k: Seq<char>,
    i: int,
)
    requires
        ms.len() == ns.len(),
        forall|j: int| 0 <= j < ms.len() ==> #[trigger] ms[j].0 == ns[j].0,
    ensures
        member_pos_from(ms, k, i) == member_pos_from(ns, k, i),
    decreases ms.len() - i,
{
    if 0 <= i < ms.len() {
        lemma_member_pos_same_keys(ms, ns, k, i + 1);
    }
}

/// Replacing an existing child and reading it back gives the new child.
proof fn lemma_put_child_get(v: JsonV, s: SegV, x: JsonV)
    requires
        jv_child(v, s) is Some,
    ensures
        jv_child(jv_put_child(v, s, x), s) == Some(x),
{
    match s {
        SegV::Key(k) => match v {
            JsonV::Object(ms) => {
                let i = member_pos(ms, k)->Some_0;
                lemma_member_pos_from(ms, k, 0);
                let ns = ms.update(i, (ms[i].0, x));
                lemma_member_pos_same_keys(ms, ns, k, 0);
            },
            _ => {},
        },
        SegV::Index(n) => {},
    }
}

/// Setting the value at an existing path and navigating there gives the new
/// value.
pub proof fn lemma_set_then_navigate(v: JsonV, path: Seq<SegV>, x: JsonV)
    requires
        jv_navigate(v, path) is Ok,
    ensures
        jv_navigate(jv_set(v, path, x), path) == Ok::<JsonV, int>(x),
    decreases path.len(),
{
    if path.len() > 0 {
        let c = jv_child(v, path[0])->Some_0;
        lemma_set_then_navigate(c, path.drop_first(), x);
        lemma_put_child_get(v, path[0], jv_set(c, path.drop_first(), x));
    }
}

/// After removing key `k`, no member has it.
pub proof fn lemma_remove_members_gone(ms: Seq<(Seq<char>, JsonV)>, k: Seq<char>)
    ensures
        forall|j: int| 0 <= j < remove_members(ms, k).len() ==> (#[trigger] remove_members(ms, k)[j]).0 != k,
        member_pos(remove_members(ms, k), k) is None,
    decreases ms.len(),
{
    if ms.len() > 0 {
        lemma_remove_members_gone(ms.drop_last(), k);
    }
    lemma_member_pos_from(remove_members(ms, k), k, 0);
}

/// An `Undefined` entry whose path ends in key `k` under an object removes
/// that key from the object, keeping its other members in order.
pub proof fn law_undefined_removes_key(
    v: JsonV,
    parent: Seq<SegV>,
    k: Seq<char>,
    ms: Seq<(Seq<char>, JsonV)>,
)
    requires
        jv_navigate(v, parent) == Ok::<JsonV, int>(JsonV::Object(ms)),
    ensures
        apply_entry(v, EntryV { meta_type: MetaType::Undefined, path: parent.push(SegV::Key(k)) }) matches Ok(w)
            && jv_navigate(w, parent) == Ok::<JsonV, int>(JsonV::Object(remove_members(ms, k))),
        member_pos(remove_members(ms, k), k) is None,
{
    let path = parent.push(SegV::Key(k));
    assert(path.drop_last() =~= parent);
    let w = jv_set(v, parent, JsonV::Object(remove_members(ms, k)));
    assert(apply_entry(v, EntryV { meta_type: MetaType::Undefined, path }) == Ok::<JsonV, SegV>(w));
    lemma_set_then_navigate(v, parent, JsonV::Object(remove_members(ms, k)));
    lemma_remove_members_gone(ms, k);
}

/// An `Undefined` entry with an empty path makes the whole value `null`.
pub proof fn law_undefined_at_root(v: JsonV)
    ensures
        apply_entry(v, EntryV { meta_type: MetaType::Undefined, path: Seq::empty() }) == Ok::<JsonV, SegV>(
            JsonV::Null,
        ),
{
}

/// Meta types other than `Undefined` and `JsMap` leave the value as it is.
pub proof fn law_other_types_keep_value(v: JsonV, e: EntryV)
    requires
        e.meta_type != MetaType::Undefined,
        e.meta_type != MetaType::JsMap,
    ensures
        apply_entry(v, e) == Ok::<JsonV, SegV>(v),
{
}

/// The value a serialized map `[[k, v], ...]` gives key `k`: the value of the
/// last pair whose key text is `k`.
pub open spec fn pair_value(a: Seq<JsonV>, k: Seq<char>) -> Option<JsonV>
    decreases a.len(),
{
    if a.len() == 0 {
        None
    } else {
        match a.last() {
            JsonV::Array(kv) => if kv.len() == 2 && map_key_text(kv[0]) == k {
                Some(kv[1])
            } else {
                pair_value(a.drop_last(), k)
            },
            _ => pair_value(a.drop_last(), k),
        }
    }
}

/// The value of key `k` among members `ms`.
pub open spec fn member_value(ms: Seq<(Seq<char>, JsonV)>, k: Seq<char>) -> Option<JsonV> {
    match member_pos(ms, k) {
        Some(i) => Some(ms[i].1),
        None => None,
    }
}

/// Binding `k2` and reading `k` back: the new value for `k2`, the old one
/// otherwise.
pub proof fn lemma_members_insert_value(ms: Seq<(Seq<char>, JsonV)>, k2: Seq<char>, x: JsonV, k: Seq<char>)
    ensures
        member_value(members_insert(ms, k2, x), k) == if k == k2 {
            Some(x)
        } else {
            member_value(ms, k)
        },
{
    lemma_member_pos_from(ms, k2, 0);
    lemma_member_pos_from(ms, k, 0);
    let ns = members_insert(ms, k2, x);
    lemma_member_pos_from(ns, k, 0);
    match member_pos(ms, k2) {
        Some(i) => {
            lemma_member_pos_same_keys(ms, ns, k, 0);
        },
        None => {
            if k == k2 {
                assert(ns[ms.len() as int].0 == k);
                match member_pos(ns, k) {
                    Some(j) => {
                        if j < ms.len() {
                            assert(ns[j] == ms[j]);
                        }
                    },
                    None => {},
                }
            } else {
                match member_pos(ms, k) {
                    Some(j) => {
                        assert(ns[j] == ms[j]);
                        match member_pos(ns, k) {
                            Some(l) => {
                                if l < j {
                                    assert(ns[l] == ms[l]);
                                }
                            },
                            None => {},
                        }
                    },
                    None => {
                        match member_pos(ns, k) {
                            Some(l) => {
                                if l < ms.len() {
                                    assert(ns[l] == ms[l]);
                                }
                            },
                            None => {},
                        }
                    },
                }
            }
        },
    }
}

/// Each key of the object built from a serialized map holds the value of the
/// last pair with that key.
pub proof fn lemma_pairs_to_members_value(a: Seq<JsonV>, k: Seq<char>)
    ensures
        member_value(pairs_to_members(a), k) == pair_value(a, k),
    decreases a.len(),
{
    if a.len() > 0 {
        lemma_pairs_to_members_value(a.drop_last(), k);
        match a.last() {
            JsonV::Array(kv) => if kv.len() == 2 {
                lemma_members_insert_value(pairs_to_members(a.drop_last()), map_key_text(kv[0]), kv[1], k);
            },
            _ => {},
        }
    }
}

/// A `JsMap` entry turns the serialized map `[[k, v], ...]` at its path into
/// an object in which each key holds the value of the last pair with that key
/// (string keys as they are, other keys as their JSON text).
pub proof fn law_map_becomes_object(v: JsonV, path: Seq<SegV>, a: Seq<JsonV>, k: Seq<char>)
    requires
        jv_navigate(v, path) == Ok::<JsonV, int>(JsonV::Array(a)),
    ensures
        apply_entry(v, EntryV { meta_type: MetaType::JsMap, path }) matches Ok(w) && jv_navigate(w, path)
            == Ok::<JsonV, int>(JsonV::Object(pairs_to_members(a))),
        member_value(pairs_to_members(a), k) == pair_value(a, k),
{
    lemma_set_then_navigate(v, path, JsonV::Object(pairs_to_members(a)));
    lemma_pairs_to_members_value(a, k);
}

/// An `Undefined` entry whose path ends in an in-range index of an array
/// keeps the array's length and makes that element `null`; every other
/// element stays as it was. Applied as the only entry, it stops nothing.
pub proof fn law_undefined_nulls_array_element(v: JsonV, parent: Seq<SegV>, a: Seq<JsonV>, n: nat)
    requires
        jv_navigate(v, parent) == Ok::<JsonV, int>(JsonV::Array(a)),
        n < a.len(),
    ensures
        apply_entries(v, seq![EntryV { meta_type: MetaType::Undefined, path: parent.push(SegV::Index(n)) }]).1 is None,
        jv_navigate(
            apply_entries(v, seq![EntryV { meta_type: MetaType::Undefined, path: parent.push(SegV::Index(n)) }]).0,
            parent,
        ) matches Ok(JsonV::Array(b)) && b.len() == a.len() && b[n as int] == JsonV::Null && forall|i: int|
            0 <= i < a.len() && i != n ==> b[i] == a[i],
{
    let e = EntryV { meta_type: MetaType::Undefined, path: parent.push(SegV::Index(n)) };
    let es = seq![e];
    assert(es.drop_last() =~= Seq::<EntryV>::empty());
    assert(es.last() == e);
    assert(e.path.drop_last() =~= parent);
    assert(e.path.last() == SegV::Index(n));
    let b = a.update(n as int, JsonV::Null);
    let w = jv_set(v, parent, JsonV::Array(b));
    assert(apply_entry(v, e) == Ok::<JsonV, SegV>(w));
    lemma_set_then_navigate(v, parent, JsonV::Array(b));
    assert(apply_entries(v, es.drop_last()) == (v, None::<SegV>));
    assert(apply_entries(v, es) == (w, None::<SegV>));
}

} // verus!
