use vstd::prelude::*;
use crate::json::{Json, JsonV, items_view, members_view, lemma_object_view};
use crate::json_text::{jv_text, to_text};
use crate::error::{ORPCError, ErrorCode, fresh_error, error_json, fresh_error_json, code_status};
use crate::procedure_error::{ProcedureError, procedure_error_to_orpc_error, answer_wire, lemma_answer_wire};
use crate::text::{chars_of, owned, push_str, push_decimal, decimal, string_push, str_eq};
use crate::meta::{
    parse_meta, apply_meta, parse_path, set_at_path, meta_result, apply_entries, nav_message,
    path_of, path_view, at_path, OpV, entries_view,
};
use crate::file::{ORPCFile, FileV, file_json, opt_view, base64_len_fits};
use crate::router::{Router, lookup, lemma_lookup_has_key};
use crate::sse::{is_subscription, subscription_hint};
use crate::openapi::{HttpMethod, urlencoded_pairs, parse_query, pairs_view, opt_str_view};

verus! {

// ---------------------------------------------------------------------------
// Procedure keys from URL paths
// ---------------------------------------------------------------------------

/// `s` with every `from` replaced by `to`.
pub open spec fn replace_char(s: Seq<char>, from: char, to: char) -> Seq<char> {
    Seq::new(s.len(), |i: int| if s[i] == from { to } else { s[i] })
}

/// `p` is a prefix of `s`.
pub open spec fn starts_with(s: Seq<char>, p: Seq<char>) -> bool {
    p.len() <= s.len() && s.take(p.len() as int) == p
}

/// The procedure key for a URL path: the path without `prefix` and without
/// one leading `/`, with every `/` turned into `.`; `None` when the path
/// does not start with the prefix at a segment boundary (the prefix must be
/// followed by `/` or by nothing) or nothing is left.
pub open spec fn procedure_key_of(path: Seq<char>, prefix: Seq<char>) -> Option<Seq<char>> {
    if starts_with(path, prefix) && (path.len() == prefix.len() || path[prefix.len() as int] == '/') {
        let rest = path.skip(prefix.len() as int);
        let rest = if rest.len() > 0 && rest[0] == '/' {
            rest.skip(1)
        } else {
            rest
        };
        if rest.len() == 0 {
            None
        } else {
            Some(replace_char(rest, '/', '.'))
        }
    } else {
        None
    }
}

/// Converts a URL path into a router key (see [`procedure_key_of`]):
/// `"/rpc/planet/list"` with prefix `"/rpc"` gives `"planet.list"`.
pub fn path_to_procedure_key(path: &str, prefix: &str) -> (r: Option<String>)
    ensures
        match procedure_key_of(path@, prefix@) {
            Some(k) => r matches Some(s) && s@ == k,
            None => r is None,
        },
{
    let p = chars_of(path);
    let q = chars_of(prefix);
    if q.len() > p.len() {
        return None;
    }
    let mut i: usize = 0;
    while i < q.len()
        invariant
            p@ == path@,
            q@ == prefix@,
            q@.len() <= p@.len(),
            0 <= i <= q@.len(),
            forall|j: int| 0 <= j < i ==> p@[j] == q@[j],
        decreases q@.len() - i,
    {
        if p[i] != q[i] {
            proof {
                assert(p@.take(q@.len() as int)[i as int] != q@[i as int]);
            }
            return None;
        }
        i = i + 1;
    }
    proof {
        assert(p@.take(q@.len() as int) =~= q@);
    }
    let mut start = q.len();
    if start < p.len() && p[start] != '/' {
        return None;
    }
    if start < p.len() && p[start] == '/' {
        start = start + 1;
    }
    let ghost rest = path@.skip(start as int);
    proof {
        let r0 = path@.skip(prefix@.len() as int);
        if r0.len() > 0 && r0[0] == '/' {
            assert(r0.skip(1) =~= rest);
        } else {
            assert(r0 =~= rest);
        }
    }
    if start == p.len() {
        return None;
    }
    let mut out = String::new();
    let mut k = start;
    while k < p.len()
        invariant
            p@ == path@,
            start <= k <= p@.len(),
            rest == p@.skip(start as int),
            out@ == replace_char(rest.take(k - start), '/', '.'),
        decreases p@.len() - k,
    {
        let c = p[k];
        if c == '/' {
            string_push(&mut out, '.');
        } else {
            string_push(&mut out, c);
        }
        proof {
            assert(replace_char(rest.take(k + 1 - start), '/', '.') =~= replace_char(
                rest.take(k - start),
                '/',
                '.',
            ).push(if c == '/' {
                '.'
            } else {
                c
            }));
        }
        k = k + 1;
    }
    proof {
        assert(rest.take(p@.len() - start) =~= rest);
    }
    Some(out)
}

// ---------------------------------------------------------------------------
// Responses
// ---------------------------------------------------------------------------

/// The HTTP status sent for an error status: the status itself when it is a
/// valid HTTP status (100 to 999), otherwise 500.
pub open spec fn http_status(s: u16) -> u16 {
    if 100 <= s && s <= 999 {
        s
    } else {
        500
    }
}

/// The HTTP status sent for `s` (see [`http_status`]).
pub fn http_status_code(s: u16) -> (r: u16)
    ensures
        r == http_status(s),
{
    if 100 <= s && s <= 999 {
        s
    } else {
        500
    }
}

/// The RPC envelope around a value: `{"json": v}`.
pub open spec fn envelope(v: JsonV) -> JsonV {
    JsonV::Object(seq![("json"@, v)])
}

/// The envelope around `v`, as a value.
pub(crate) fn envelope_value(v: Json) -> (j: Json)
    ensures
        j@ == envelope(v@),
{
    let mut members: Vec<(String, Json)> = Vec::new();
    members.push((owned("json"), v));
    proof {
        lemma_object_view(members);
        assert(members_view(members@) =~= seq![("json"@, v@)]);
    }
    Json::Object(members)
}

/// The response for an error with status `status` and JSON value `j`: its
/// HTTP status and the text of its envelope.
pub open spec fn error_response(status: u16, j: JsonV) -> (u16, Seq<char>) {
    (http_status(status), jv_text(envelope(j)))
}

/// The response for a successful call: status 200 and the envelope around
/// the output value.
pub fn encode_rpc_success(value: Json) -> (r: (u16, String))
    ensures
        r.0 == 200,
        r.1@ == jv_text(envelope(value@)),
{
    (200, to_text(&envelope_value(value)))
}

/// The response for an error: its status (or 500 when that is no valid HTTP
/// status) and the envelope around the error.
pub fn encode_rpc_error(err: &ORPCError) -> (r: (u16, String))
    ensures
        (r.0, r.1@) == error_response(err.status, error_json(*err)),
{
    (http_status_code(err.status), to_text(&envelope_value(err.to_value())))
}

/// The response for the first item a procedure produced: its output, the
/// error answering its failure, or `INTERNAL_SERVER_ERROR` when it produced
/// nothing.
pub fn consume_single_value(first: Option<Result<Json, ProcedureError>>) -> (r: (u16, String))
    ensures
        match first {
            None => (r.0, r.1@) == error_response(
                code_status(ErrorCode::InternalServerError),
                fresh_error_json(ErrorCode::InternalServerError, "Procedure returned no output"@),
            ),
            Some(Ok(v)) => r.0 == 200 && r.1@ == jv_text(envelope(v@)),
            Some(Err(e)) => (r.0, r.1@) == error_response(answer_wire(e).0, answer_wire(e).1),
        },
{
    match first {
        None => {
            let err = ORPCError::internal_server_error("Procedure returned no output");
            proof {
                assert(error_json(err)->Object_0 =~= fresh_error_json(
                    ErrorCode::InternalServerError,
                    "Procedure returned no output"@,
                )->Object_0);
            }
            encode_rpc_error(&err)
        },
        Some(Ok(v)) => encode_rpc_success(v),
        Some(Err(e)) => {
            let ghost pe = e;
            let err = procedure_error_to_orpc_error(e);
            proof {
                lemma_answer_wire(pe, err);
            }
            encode_rpc_error(&err)
        },
    }
}

/// The first event id of a subscription: one past the last id the client saw,
/// or 0 for a fresh subscription.
pub fn sse_start_id(last_event_id: Option<u64>) -> (r: u64)
    requires
        last_event_id != Some(u64::MAX),
    ensures
        r == match last_event_id {
            Some(id) => id + 1,
            None => 0,
        },
{
    match last_event_id {
        Some(id) => id + 1,
        None => 0,
    }
}

// ---------------------------------------------------------------------------
// Request decoding
// ---------------------------------------------------------------------------

/// An RPC request body after JSON parsing: `{"json": <input>, "meta": [...]}`;
/// both members may be absent.
#[derive(Debug)]
pub struct RpcWire {
    pub json: Option<Json>,
    pub meta: Vec<Json>,
}

/// The `data` field of a multipart RPC request after JSON parsing; `maps[i]`
/// is the path at which file `i` goes.
#[derive(Debug)]
pub struct MultipartWire {
    pub json: Option<Json>,
    pub meta: Vec<Json>,
    pub maps: Vec<Json>,
}

/// A file part of a multipart request.
#[derive(Debug)]
pub struct MultipartFile {
    /// Raw file bytes.
    pub data: Vec<u8>,
    /// File name from the part's `Content-Disposition` header.
    pub name: Option<String>,
    /// MIME type from the part's `Content-Type` header.
    pub content_type: Option<String>,
}

/// The input value carried by the `json` member: `null` when absent.
pub open spec fn input_of(json: Option<Json>) -> JsonV {
    match json {
        Some(j) => j@,
        None => JsonV::Null,
    }
}

/// `v` after the meta array `meta` is parsed and applied, or the message of
/// the `BAD_REQUEST` error that stops it; an empty array changes nothing.
pub open spec fn with_meta(v: JsonV, meta: Seq<JsonV>) -> Result<JsonV, Seq<char>> {
    if meta.len() == 0 {
        Ok(v)
    } else {
        match meta_result(meta) {
            Err(m) => Err(m),
            Ok(es) => {
                let (w, f) = apply_entries(v, es);
                match f {
                    None => Ok(w),
                    Some(s) => Err(nav_message(s)),
                }
            },
        }
    }
}

/// `r` is the value `spec` gives, or the `BAD_REQUEST` error with its message.
pub open spec fn decoded(spec: Result<JsonV, Seq<char>>, r: Result<Json, ORPCError>) -> bool {
    match spec {
        Ok(v) => r matches Ok(j) && j@ == v,
        Err(m) => r matches Err(e) && fresh_error(e, ErrorCode::BadRequest, m),
    }
}

fn take_input(json: Option<Json>) -> (j: Json)
    ensures
        j@ == input_of(json),
{
    match json {
        Some(j) => j,
        None => Json::Null,
    }
}

/// Applies the meta array to `value` (see [`with_meta`]).
fn decode_meta(value: Json, meta: &Vec<Json>) -> (r: Result<Json, ORPCError>)
    ensures
        decoded(with_meta(value@, items_view(meta@)), r),
{
    if meta.len() == 0 {
        return Ok(value);
    }
    let entries = match parse_meta(meta.as_slice()) {
        Ok(es) => es,
        Err(e) => return Err(e),
    };
    let mut value = value;
    match apply_meta(&mut value, entries.as_slice()) {
        Ok(()) => Ok(value),
        Err(e) => Err(e),
    }
}

/// What a non-empty request body decodes to: the body parsed as JSON (or the
/// parser's message) gives the `json` member (or `null`) with the `meta`
/// array applied.
pub open spec fn body_outcome(parsed: Result<RpcWire, String>, r: Result<Json, ORPCError>) -> bool {
    match parsed {
        Err(m) => r matches Err(e) && fresh_error(e, ErrorCode::BadRequest, "Invalid request body: "@ + m@),
        Ok(w) => decoded(with_meta(input_of(w.json), items_view(w.meta@)), r),
    }
}

fn decode_parsed_body(parsed: Result<RpcWire, String>) -> (r: Result<Json, ORPCError>)
    ensures
        body_outcome(parsed, r),
{
    match parsed {
        Err(m) => {
            let mut msg = owned("Invalid request body: ");
            push_str(&mut msg, m.as_str());
            Err(ORPCError::from_message(ErrorCode::BadRequest, msg))
        },
        Ok(w) => {
            let RpcWire { json, meta } = w;
            decode_meta(take_input(json), &meta)
        },
    }
}

/// Decodes an RPC request body. `parsed` is the body parsed as JSON (or the
/// parser's message); it is used only when the body is not empty. An empty
/// body is no input (`null`); otherwise the input is the `json` member (or
/// `null`) with the `meta` array applied.
pub fn decode_rpc_request(body: &[u8], parsed: Result<RpcWire, String>) -> (r: Result<Json, ORPCError>)
    ensures
        body@.len() == 0 ==> (r matches Ok(j) && j@ == JsonV::Null),
        body@.len() > 0 ==> body_outcome(parsed, r),
{
    if body.len() == 0 {
        return Ok(Json::Null);
    }
    decode_parsed_body(parsed)
}

/// The value of the first pair named `name`, if any.
pub open spec fn first_value(ps: Seq<(Seq<char>, Seq<char>)>, name: Seq<char>) -> Option<Seq<char>>
    decreases ps.len(),
{
    if ps.len() == 0 {
        None
    } else if ps[0].0 == name {
        Some(ps[0].1)
    } else {
        first_value(ps.drop_first(), name)
    }
}

/// The `data` parameter of an RPC `GET` request's query string, decoded as
/// `serde_urlencoded` decodes it: `Ok(None)` when there is no query or no such
/// parameter, `Err` when the query string is rejected.
pub open spec fn get_data(query: Option<Seq<char>>) -> Result<Option<Seq<char>>, ()> {
    match query {
        None => Ok(None),
        Some(q) => if q.len() == 0 {
            Ok(None)
        } else {
            match urlencoded_pairs(q) {
                Err(_) => Err(()),
                Ok(ps) => Ok(first_value(ps, "data"@)),
            }
        },
    }
}

/// The `data` parameter of an RPC `GET` request (see [`get_data`]); a
/// rejected query string answers `BAD_REQUEST`.
pub fn rpc_get_data(query: Option<&str>) -> (r: Result<Option<String>, ORPCError>)
    ensures
        match get_data(opt_str_view(query)) {
            Ok(None) => r matches Ok(None),
            Ok(Some(d)) => r matches Ok(Some(s)) && s@ == d,
            Err(()) => r matches Err(e) && fresh_error(e, ErrorCode::BadRequest, "Invalid query string"@),
        },
{
    let q = match query {
        None => return Ok(None),
        Some(q) => q,
    };
    if q.is_empty() {
        return Ok(None);
    }
    let pairs = match parse_query(q) {
        Ok(ps) => ps,
        Err(_) => return Err(ORPCError::new(ErrorCode::BadRequest, "Invalid query string")),
    };
    let ghost pv = pairs_view(pairs@);
    let n = pairs.len();
    let mut i: usize = 0;
    proof {
        assert(pv.skip(0) =~= pv);
    }
    while i < n
        invariant
            n == pairs@.len(),
            pv == pairs_view(pairs@),
            urlencoded_pairs(q@) matches Ok(p) && p == pv,
            query == Some(q),
            q@.len() > 0,
            0 <= i <= n,
            first_value(pv, "data"@) == first_value(pv.skip(i as int), "data"@),
        decreases n - i,
    {
        proof {
            reveal_strlit("data");
            assert(pv.skip(i as int).drop_first() =~= pv.skip(i + 1));
            assert(pv.skip(i as int)[0] == pv[i as int]);
            assert(pv[i as int] == (pairs@[i as int].0@, pairs@[i as int].1@));
        }
        if str_eq(pairs[i].0.as_str(), "data") {
            proof {
                assert(pv.skip(i as int).len() > 0);
                assert(first_value(pv.skip(i as int), "data"@) == Some(pv[i as int].1));
            }
            let v = pairs[i].1.clone();
            return Ok(Some(v));
        }
        i = i + 1;
    }
    proof {
        assert(pv.skip(n as int).len() == 0);
    }
    Ok(None)
}

/// Decodes the input of an RPC `GET` request from its `data` parameter, read
/// as a `POST` body is: no parameter (or an empty one) is no input (`null`).
/// `parsed` is the parameter parsed as JSON (or the parser's message).
pub fn decode_rpc_get(data: Option<&str>, parsed: Result<RpcWire, String>) -> (r: Result<Json, ORPCError>)
    ensures
        match data {
            None => r matches Ok(j) && j@ == JsonV::Null,
            Some(d) => if d@.len() == 0 {
                r matches Ok(j) && j@ == JsonV::Null
            } else {
                body_outcome(parsed, r)
            },
        },
{
    match data {
        None => Ok(Json::Null),
        Some(d) => if d.is_empty() {
            Ok(Json::Null)
        } else {
            decode_parsed_body(parsed)
        },
    }
}

/// The file injected for an upload: its bytes, and its name and content type
/// (empty when the part had none).
pub open spec fn upload_view(f: MultipartFile) -> FileV {
    FileV {
        data: f.data@,
        name: Some(
            match opt_view(f.name) {
                Some(n) => n,
                None => Seq::empty(),
            },
        ),
        content_type: Some(
            match opt_view(f.content_type) {
                Some(c) => c,
                None => Seq::empty(),
            },
        ),
    }
}

/// The files of a multipart request, as models.
pub open spec fn uploads_view(fs: Seq<MultipartFile>) -> Seq<FileV> {
    Seq::new(fs.len(), |i: int| upload_view(fs[i]))
}

/// The message for a `maps` entry that names a missing file.
pub open spec fn missing_file_message(i: nat, n: nat) -> Seq<char> {
    "maps references file "@ + decimal(i) + " but only "@ + decimal(n) + " files provided"@
}

/// `w` after file `i` is put at the path given by `entry`.
pub open spec fn inject_one(w: JsonV, entry: JsonV, i: nat, files: Seq<FileV>) -> Result<JsonV, Seq<char>> {
    match entry {
        JsonV::Array(a) => match path_of(a) {
            None => Err("Meta path segment must be string or number"@),
            Some(p) => if i < files.len() {
                match at_path(w, p, OpV::Replace(file_json(files[i as int]))) {
                    Ok(w2) => Ok(w2),
                    Err(s) => Err(nav_message(s)),
                }
            } else {
                Err(missing_file_message(i, files.len()))
            },
        },
        _ => Err("maps entry must be an array"@),
    }
}

/// `v` after every file is put at its path, in the order of `maps`, or the
/// message for the first entry that fails.
pub open spec fn inject_files(v: JsonV, maps: Seq<JsonV>, files: Seq<FileV>) -> Result<JsonV, Seq<char>>
    decreases maps.len(),
{
    if maps.len() == 0 {
        Ok(v)
    } else {
        match inject_files(v, maps.drop_last(), files) {
            Err(m) => Err(m),
            Ok(w) => inject_one(w, maps.last(), (maps.len() - 1) as nat, files),
        }
    }
}

/// Once a prefix of the maps fails, the whole list fails the same way.
proof fn lemma_inject_prefix_err(v: JsonV, maps: Seq<JsonV>, files: Seq<FileV>, k: int)
    requires
        0 <= k <= maps.len(),
        inject_files(v, maps.take(k), files) is Err,
    ensures
        inject_files(v, maps, files) == inject_files(v, maps.take(k), files),
    decreases maps.len() - k,
{
    if k < maps.len() {
        assert(maps.take(k + 1).drop_last() =~= maps.take(k));
        lemma_inject_prefix_err(v, maps, files, k + 1);
    } else {
        assert(maps.take(k) =~= maps);
    }
}

/// The file object for an upload (see [`upload_view`]).
fn upload_file(f: &MultipartFile) -> (r: ORPCFile)
    ensures
        r@ == upload_view(*f),
{
    let mut data: Vec<u8> = Vec::new();
    let n = f.data.len();
    let mut i: usize = 0;
    while i < n
        invariant
            n == f.data@.len(),
            0 <= i <= n,
            data@ == f.data@.take(i as int),
        decreases n - i,
    {
        data.push(f.data[i]);
        proof {
            assert(f.data@.take(i + 1) =~= f.data@.take(i as int).push(f.data@[i as int]));
        }
        i = i + 1;
    }
    proof {
        assert(f.data@.take(n as int) =~= f.data@);
    }
    let name = match &f.name {
        Some(s) => s.as_str(),
        None => "",
    };
    let content_type = match &f.content_type {
        Some(s) => s.as_str(),
        None => "",
    };
    proof {
        reveal_strlit("");
        assert(name@ == upload_view(*f).name.unwrap());
        assert(content_type@ == upload_view(*f).content_type.unwrap());
    }
    ORPCFile::new(data).with_name(name).with_content_type(content_type)
}

/// Decodes a multipart RPC request. `parsed` is the `data` field parsed as
/// JSON (or the parser's message); `files` are the numbered file parts. Each
/// file goes, as its JSON object, to the path its `maps` entry gives; then the
/// `meta` array is applied.
pub fn decode_rpc_multipart_request(parsed: Result<MultipartWire, String>, files: Vec<MultipartFile>) -> (r: Result<
    Json,
    ORPCError,
>)
    requires
        forall|i: int| 0 <= i < files@.len() ==> base64_len_fits(#[trigger] files@[i].data@.len()),
    ensures
        match parsed {
            Err(m) => r matches Err(e) && fresh_error(
                e,
                ErrorCode::BadRequest,
                "Invalid multipart data field: "@ + m@,
            ),
            Ok(w) => decoded(
                match inject_files(input_of(w.json), items_view(w.maps@), uploads_view(files@)) {
                    Err(m) => Err(m),
                    Ok(v) => with_meta(v, items_view(w.meta@)),
                },
                r,
            ),
        },
{
    let w = match parsed {
        Err(m) => {
            let mut msg = owned("Invalid multipart data field: ");
            push_str(&mut msg, m.as_str());
            return Err(ORPCError::from_message(ErrorCode::BadRequest, msg));
        },
        Ok(w) => w,
    };
    let MultipartWire { json, meta, maps } = w;
    let ghost fv = uploads_view(files@);
    let ghost mv = items_view(maps@);
    let ghost v0 = input_of(json);
    let mut value = take_input(json);
    let n = maps.len();
    let mut i: usize = 0;
    proof {
        assert(mv.take(0) =~= Seq::<JsonV>::empty());
    }
    while i < n
        invariant
            n == maps@.len(),
            mv == items_view(maps@),
            fv == uploads_view(files@),
            forall|k: int| 0 <= k < files@.len() ==> base64_len_fits(#[trigger] files@[k].data@.len()),
            parsed matches Ok(pw) && mv == items_view(pw.maps@) && v0 == input_of(pw.json) && pw.meta@
                == meta@,
            0 <= i <= n,
            inject_files(v0, mv.take(i as int), fv) == Ok::<JsonV, Seq<char>>(value@),
        decreases n - i,
    {
        proof {
            assert(mv.take(i + 1).drop_last() =~= mv.take(i as int));
            assert(mv.take(i + 1).last() == mv[i as int]);
        }
        let arr = match maps[i].as_array() {
            Some(a) => a,
            None => {
                proof {
                    lemma_inject_prefix_err(v0, mv, fv, i + 1);
                }
                return Err(ORPCError::bad_request("maps entry must be an array"));
            },
        };
        let path = match parse_path(arr.as_slice()) {
            Ok(p) => p,
            Err(e) => {
                proof {
                    lemma_inject_prefix_err(v0, mv, fv, i + 1);
                }
                return Err(e);
            },
        };
        if i >= files.len() {
            let mut msg = owned("maps references file ");
            push_decimal(&mut msg, i as u64);
            push_str(&mut msg, " but only ");
            push_decimal(&mut msg, files.len() as u64);
            push_str(&mut msg, " files provided");
            proof {
                assert(msg@ =~= missing_file_message(i as nat, fv.len()));
                lemma_inject_prefix_err(v0, mv, fv, i + 1);
            }
            return Err(ORPCError::from_message(ErrorCode::BadRequest, msg));
        }
        let file = upload_file(&files[i]);
        let file_value = file.to_json();
        proof {
            assert(fv[i as int] == file@);
        }
        match set_at_path(&mut value, &path, file_value) {
            Ok(()) => {},
            Err(e) => {
                proof {
                    lemma_inject_prefix_err(v0, mv, fv, i + 1);
                }
                return Err(e);
            },
        }
        i = i + 1;
    }
    proof {
        assert(mv.take(n as int) =~= mv);
    }
    decode_meta(value, &meta)
}

/// How an RPC call is answered.
pub enum RpcAnswerMode {
    /// One JSON body with the first result.
    Json,
    /// A `text/event-stream` of the results, whose message ids start here.
    EventStream(u64),
}

/// A subscription (see [`subscription_hint`]) is answered as an event stream
/// whose ids start one past the last id the client saw (or at 0); any other
/// call with one JSON body.
pub open spec fn answer_mode(hint: (usize, Option<usize>), last_event_id: Option<u64>) -> RpcAnswerMode {
    if subscription_hint(hint) {
        RpcAnswerMode::EventStream(
            match last_event_id {
                Some(id) => (id + 1) as u64,
                None => 0,
            },
        )
    } else {
        RpcAnswerMode::Json
    }
}

/// Decides how an RPC call whose procedure stream has size hint `hint` is
/// answered (see [`answer_mode`]).
pub fn rpc_answer_mode(hint: (usize, Option<usize>), last_event_id: Option<u64>) -> (r: RpcAnswerMode)
    requires
        subscription_hint(hint) ==> last_event_id != Some(u64::MAX),
    ensures
        r == answer_mode(hint, last_event_id),
{
    if is_subscription(hint) {
        RpcAnswerMode::EventStream(sse_start_id(last_event_id))
    } else {
        RpcAnswerMode::Json
    }
}

// ---------------------------------------------------------------------------
// Routing an RPC request
// ---------------------------------------------------------------------------

/// Configuration of the HTTP integration.
#[derive(Debug)]
pub struct ORPCConfig {
    /// URL prefix of the RPC routes (such as `/rpc`).
    pub prefix: String,
    /// Largest request body accepted, in bytes.
    pub max_body_size: usize,
}

impl Default for ORPCConfig {
    /// No prefix, and a 10 MiB body limit.
    fn default() -> (c: ORPCConfig)
        ensures
            c.prefix@.len() == 0,
            c.max_body_size == 10 * 1024 * 1024,
    {
        ORPCConfig { prefix: String::new(), max_body_size: 10 * 1024 * 1024 }
    }
}

/// The procedure key an RPC request is served by, or the error that answers
/// it: `GET` and `POST` are served, the path must give a key under `prefix`,
/// and the router must hold that key.
pub open spec fn rpc_target<P>(
    es: Seq<(Seq<char>, P)>,
    method: Option<HttpMethod>,
    path: Seq<char>,
    prefix: Seq<char>,
) -> Result<Seq<char>, (ErrorCode, Seq<char>)> {
    if method != Some(HttpMethod::Post) && method != Some(HttpMethod::Get) {
        Err((ErrorCode::MethodNotAllowed, "Only GET and POST are allowed for RPC"@))
    } else {
        match procedure_key_of(path, prefix) {
            None => Err((ErrorCode::NotFound, "Unknown path: "@ + path)),
            Some(k) => if lookup(es, k) is Some {
                Ok(k)
            } else {
                Err((ErrorCode::NotFound, "Procedure not found: "@ + k))
            },
        }
    }
}

/// Decides which procedure serves an RPC request (see [`rpc_target`]).
/// `method` is the request's method, `None` when it is none of the known ones.
pub fn route_rpc_request<P>(router: &Router<P>, method: Option<HttpMethod>, path: &str, prefix: &str) -> (r: Result<
    String,
    ORPCError,
>)
    ensures
        match rpc_target(router@, method, path@, prefix@) {
            Ok(k) => r matches Ok(s) && s@ == k,
            Err((code, m)) => r matches Err(e) && fresh_error(e, code, m),
        },
{
    match method {
        Some(HttpMethod::Post) | Some(HttpMethod::Get) => {},
        _ => {
            return Err(ORPCError::new(ErrorCode::MethodNotAllowed, "Only GET and POST are allowed for RPC"));
        },
    }
    let key = match path_to_procedure_key(path, prefix) {
        Some(k) => k,
        None => {
            let mut m = owned("Unknown path: ");
            push_str(&mut m, path);
            return Err(ORPCError::from_message(ErrorCode::NotFound, m));
        },
    };
    match router.get(key.as_str()) {
        Some(_) => Ok(key),
        None => {
            let mut m = owned("Procedure not found: ");
            push_str(&mut m, key.as_str());
            Err(ORPCError::from_message(ErrorCode::NotFound, m))
        },
    }
}

} // verus!
