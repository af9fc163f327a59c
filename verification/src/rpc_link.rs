use vstd::prelude::*;
use crate::json::{Json, JsonV, members_view, lemma_object_view};
use crate::rpc::{replace_char, envelope, procedure_key_of, starts_with};
use crate::text::{chars_of, owned, string_push};

verus! {

#[verifier::external_type_specification]
#[verifier::external_body]
pub struct ExReqwestClient(reqwest::Client);

/// A fresh HTTP client from `reqwest::Client::new`. Nothing is stated of it:
/// it is an opaque handle. (`reqwest` documents a panic when a TLS backend or
/// the system resolver configuration cannot be initialised; this build
/// enables neither.)
#[verifier::external_body]
fn default_http_client() -> reqwest::Client {
    reqwest::Client::new()
}

/// `s` without any trailing `c`.
pub open spec fn trim_end(s: Seq<char>, c: char) -> Seq<char>
    decreases s.len(),
{
    if s.len() > 0 && s.last() == c {
        trim_end(s.drop_last(), c)
    } else {
        s
    }
}

/// The URL of procedure `path` under `base`: `base` without trailing `/`,
/// then `/`, then the path with every `.` turned into `/`.
pub open spec fn procedure_url(base: Seq<char>, path: Seq<char>) -> Seq<char> {
    trim_end(base, '/') + seq!['/'] + replace_char(path, '.', '/')
}

/// The request body for an input: `{}` for no input (`null`), otherwise the
/// envelope `{"json": input}`.
pub open spec fn request_body(input: JsonV) -> JsonV {
    if input == JsonV::Null {
        JsonV::Object(Seq::empty())
    } else {
        envelope(input)
    }
}

/// HTTP transport of the oRPC RPC protocol: procedure paths become URL paths
/// under a base URL, and calls are `POST` requests.
pub struct RpcLink {
    http: reqwest::Client,
    base_url: String,
}

impl RpcLink {
    /// A link to `base_url` with a default HTTP client.
    pub fn new(base_url: &str) -> (l: RpcLink)
        ensures
            l.base_url()@ == base_url@,
    {
        RpcLink { http: default_http_client(), base_url: owned(base_url) }
    }

    /// Uses `client` for the requests (for a proxy, TLS or auth setup); the
    /// base URL is kept.
    pub fn with_client(self, client: reqwest::Client) -> (l: RpcLink)
        ensures
            l.base_url()@ == self.base_url()@,
            l.client() == client,
    {
        RpcLink { http: client, base_url: self.base_url }
    }

    /// The base URL.
    pub closed spec fn base_url(&self) -> String {
        self.base_url
    }

    /// The HTTP client the requests go through.
    pub closed spec fn client(&self) -> reqwest::Client {
        self.http
    }

    /// The HTTP client the requests go through.
    pub fn http(&self) -> (c: &reqwest::Client)
        ensures
            *c == self.client(),
    {
        &self.http
    }

    /// The URL of procedure `path` (see [`procedure_url`]).
    pub fn build_url(&self, path: &str) -> (r: String)
        ensures
            r@ == procedure_url(self.base_url()@, path@),
    {
        let b = chars_of(self.base_url.as_str());
        let mut end = b.len();
        proof {
            assert(b@.take(end as int) =~= b@);
        }
        while end > 0 && b[end - 1] == '/'
            invariant
                end <= b@.len(),
                trim_end(b@, '/') == trim_end(b@.take(end as int), '/'),
            decreases end,
        {
            proof {
                assert(b@.take(end as int).drop_last() =~= b@.take(end - 1));
            }
            end = end - 1;
        }
        let mut out = String::new();
        let mut i: usize = 0;
        while i < end
            invariant
                end <= b@.len(),
                0 <= i <= end,
                out@ == b@.take(i as int),
            decreases end - i,
        {
            string_push(&mut out, b[i]);
            proof {
                assert(b@.take(i + 1) =~= b@.take(i as int).push(b@[i as int]));
            }
            i = i + 1;
        }
        proof {
            assert(trim_end(b@.take(end as int), '/') == b@.take(end as int));
        }
        string_push(&mut out, '/');
        let p = chars_of(path);
        let ghost head = out@;
        let mut k: usize = 0;
        while k < p.len()
            invariant
                p@ == path@,
                0 <= k <= p@.len(),
                out@ == head + replace_char(p@.take(k as int), '.', '/'),
            decreases p@.len() - k,
        {
            let c = p[k];
            if c == '.' {
                string_push(&mut out, '/');
            } else {
                string_push(&mut out, c);
            }
            proof {
                assert(replace_char(p@.take(k + 1), '.', '/') =~= replace_char(p@.take(k as int), '.', '/').push(
                    if c == '.' {
                        '/'
                    } else {
                        c
                    },
                ));
            }
            k = k + 1;
        }
        proof {
            assert(p@.take(p@.len() as int) =~= p@);
            assert(out@ =~= procedure_url(self.base_url()@, path@));
        }
        out
    }

    /// The request body for `input` (see [`request_body`]).
    pub fn build_body(input: Json) -> (r: Json)
        ensures
            r@ == request_body(input@),
    {
        if input.is_null() {
            let members: Vec<(String, Json)> = Vec::new();
            proof {
                lemma_object_view(members);
                assert(members_view(members@) =~= Seq::<(Seq<char>, JsonV)>::empty());
            }
            Json::Object(members)
        } else {
            crate::rpc::envelope_value(input)
        }
    }
}

/// A string that does not end in `c` is its own trim.
proof fn lemma_trim_end_noop(s: Seq<char>, c: char)
    requires
        s.len() == 0 || s.last() != c,
    ensures
        trim_end(s, c) == s,
{
}

/// Client and server agree on procedure paths: a key without `/`, sent by a
/// link whose base URL path is `prefix` (with no trailing `/`), arrives at
/// the server as the URL path `procedure_url(prefix, key)`, which the server
/// maps back to the same key.
pub proof fn law_url_key_roundtrip(prefix: Seq<char>, key: Seq<char>)
    requires
        key.len() > 0,
        forall|i: int| 0 <= i < key.len() ==> key[i] != '/',
        prefix.len() == 0 || prefix.last() != '/',
    ensures
        procedure_key_of(procedure_url(prefix, key), prefix) == Some(key),
{
    lemma_trim_end_noop(prefix, '/');
    let url = procedure_url(prefix, key);
    let enc = replace_char(key, '.', '/');
    assert(url =~= prefix + seq!['/'] + enc);
    assert(url.take(prefix.len() as int) =~= prefix);
    assert(starts_with(url, prefix));
    let rest = url.skip(prefix.len() as int);
    assert(rest =~= seq!['/'] + enc);
    assert(rest[0] == '/');
    assert(rest.skip(1) =~= enc);
    assert(replace_char(enc, '/', '.') =~= key);
}

} // verus!
