use vstd::prelude::*;
use base64::Engine;
use crate::json::{Json, JsonV, members_view, lemma_object_view};
use crate::text::{owned, str_eq};

verus! {

/// The text that `base64`'s standard engine (RFC 4648 alphabet, with
/// padding) produces for `data`.
pub uninterp spec fn base64_standard_encode(data: Seq<u8>) -> Seq<char>;

/// The bytes that `base64`'s standard engine decodes from `text`, or, when it
/// rejects the text, the text of the engine's error (its `Display`).
pub uninterp spec fn base64_standard_decode(text: Seq<char>) -> Result<Seq<u8>, Seq<char>>;

/// The padded base64 text for `n` bytes fits in `usize`: four characters for
/// each started group of three bytes (`base64::encoded_len` with padding).
pub open spec fn base64_len_fits(n: nat) -> bool {
    (n / 3) * 4 + (if n % 3 > 0 {
        4int
    } else {
        0int
    }) <= usize::MAX
}

/// A decoding result that gives back `data`.
pub open spec fn decodes_to(res: Result<Seq<u8>, Seq<char>>, data: Seq<u8>) -> bool {
    res == Ok::<Seq<u8>, Seq<char>>(data)
}

/// Encodes `data` with `base64::engine::general_purpose::STANDARD.encode`.
/// Trusted: the result is the engine's encoding of `data`, and decoding it with
/// the same engine gives `data` back (the property the crate's round-trip
/// tests check). Inputs whose encoded length would overflow `usize`, on which
/// the engine panics, are excluded.
#[verifier::external_body]
fn base64_encode(data: &[u8]) -> (r: String)
    requires
        base64_len_fits(data@.len()),
    ensures
        r@ == base64_standard_encode(data@),
        decodes_to(base64_standard_decode(r@), data@),
{
    base64::engine::general_purpose::STANDARD.encode(data)
}

/// Decodes `text` with `base64::engine::general_purpose::STANDARD.decode`.
/// Trusted: the result is the engine's decoding of `text`, and on an error
/// the text of the engine's `DecodeError`.
#[verifier::external_body]
fn base64_decode(text: &str) -> (r: Result<Vec<u8>, String>)
    ensures
        match base64_standard_decode(text@) {
            Ok(b) => r matches Ok(v) && v@ == b,
            Err(m) => r matches Err(e) && e@ == m,
        },
{
    base64::engine::general_purpose::STANDARD.decode(text).map_err(|e| e.to_string())
}

/// An uploaded file held in memory.
#[derive(Debug)]
pub struct ORPCFile {
    /// Raw file bytes.
    pub data: Vec<u8>,
    /// File name as supplied by the uploader, if given.
    pub name: Option<String>,
    /// MIME type, if given (such as `image/png`).
    pub content_type: Option<String>,
}

/// Model of an [`ORPCFile`].
pub struct FileV {
    pub data: Seq<u8>,
    pub name: Option<Seq<char>>,
    pub content_type: Option<Seq<char>>,
}

/// The model of an optional string.
pub open spec fn opt_view(o: Option<String>) -> Option<Seq<char>> {
    match o {
        Some(s) => Some(s@),
        None => None,
    }
}

impl View for ORPCFile {
    type V = FileV;

    open spec fn view(&self) -> FileV {
        FileV { data: self.data@, name: opt_view(self.name), content_type: opt_view(self.content_type) }
    }
}

/// An optional string as a JSON value: the string, or `null`.
pub open spec fn opt_json(o: Option<Seq<char>>) -> JsonV {
    match o {
        Some(s) => JsonV::Str(s),
        None => JsonV::Null,
    }
}

/// The JSON object that represents a file: `contentType`, `data` (the bytes
/// in base64) and `name`, in key order.
pub open spec fn file_json(f: FileV) -> JsonV {
    JsonV::Object(
        seq![
            ("contentType"@, opt_json(f.content_type)),
            ("data"@, JsonV::Str(base64_standard_encode(f.data))),
            ("name"@, opt_json(f.name)),
        ],
    )
}

/// A field of the file object.
#[derive(Debug, Clone, Copy, PartialEq, Eq, Structural)]
pub enum FileField {
    Data,
    Name,
    ContentType,
}

/// Why a JSON value is not a file.
#[derive(Debug)]
pub enum FileDecodeError {
    /// The value is not an object.
    NotAnObject,
    /// The object has a member that is not a file field.
    UnknownField(String),
    /// A field holds a value of the wrong type.
    InvalidType(FileField),
    /// There is no `data` member.
    MissingData,
    /// `data` is not valid base64; the decoder's message.
    InvalidBase64(String),
}

/// Model of a [`FileDecodeError`].
pub enum FileErrV {
    NotAnObject,
    UnknownField(Seq<char>),
    InvalidType(FileField),
    MissingData,
    InvalidBase64(Seq<char>),
}

impl View for FileDecodeError {
    type V = FileErrV;

    open spec fn view(&self) -> FileErrV {
        match self {
            FileDecodeError::NotAnObject => FileErrV::NotAnObject,
            FileDecodeError::UnknownField(k) => FileErrV::UnknownField(k@),
            FileDecodeError::InvalidType(f) => FileErrV::InvalidType(*f),
            FileDecodeError::MissingData => FileErrV::MissingData,
            FileDecodeError::InvalidBase64(m) => FileErrV::InvalidBase64(m@),
        }
    }
}

/// The fields read so far: `data`, `name`, `contentType`.
pub type FieldsV = (Option<Seq<char>>, Option<Seq<char>>, Option<Seq<char>>);

/// The fields after reading one more member `(k, v)`: `data` must be a
/// string; `name` and `contentType` a string or `null` (which clears them);
/// any other key is rejected. A later member overrides an earlier one.
pub open spec fn read_field(acc: FieldsV, k: Seq<char>, v: JsonV) -> Result<FieldsV, FileErrV> {
    if k == "data"@ {
        match v {
            JsonV::Str(s) => Ok((Some(s), acc.1, acc.2)),
            _ => Err(FileErrV::InvalidType(FileField::Data)),
        }
    } else if k == "name"@ {
        match v {
            JsonV::Str(s) => Ok((acc.0, Some(s), acc.2)),
            JsonV::Null => Ok((acc.0, None, acc.2)),
            _ => Err(FileErrV::InvalidType(FileField::Name)),
        }
    } else if k == "contentType"@ {
        match v {
            JsonV::Str(s) => Ok((acc.0, acc.1, Some(s))),
            JsonV::Null => Ok((acc.0, acc.1, None)),
            _ => Err(FileErrV::InvalidType(FileField::ContentType)),
        }
    } else {
        Err(FileErrV::UnknownField(k))
    }
}

/// The fields read from the members `ms`, in order, or the first rejection.
pub open spec fn read_fields(ms: Seq<(Seq<char>, JsonV)>) -> Result<FieldsV, FileErrV>
    decreases ms.len(),
{
    if ms.len() == 0 {
        Ok((None, None, None))
    } else {
        match read_fields(ms.drop_last()) {
            Ok(acc) => read_field(acc, ms.last().0, ms.last().1),
            Err(e) => Err(e),
        }
    }
}

/// The file that a JSON value stands for, or why it does not stand for one.
pub open spec fn file_from_json(v: JsonV) -> Result<FileV, FileErrV> {
    match v {
        JsonV::Object(ms) => match read_fields(ms) {
            Err(e) => Err(e),
            Ok((data, name, content_type)) => match data {
                None => Err(FileErrV::MissingData),
                Some(text) => match base64_standard_decode(text) {
                    Err(m) => Err(FileErrV::InvalidBase64(m)),
                    Ok(bytes) => Ok(FileV { data: bytes, name, content_type }),
                },
            },
        },
        _ => Err(FileErrV::NotAnObject),
    }
}

/// Once a prefix of the members is rejected, the whole object is rejected in
/// the same way.
proof fn lemma_read_fields_prefix_err(ms: Seq<(Seq<char>, JsonV)>, k: int)
    requires
        0 <= k <= ms.len(),
        read_fields(ms.take(k)) is Err,
    ensures
        read_fields(ms) == read_fields(ms.take(k)),
    decreases ms.len() - k,
{
    if k < ms.len() {
        assert(ms.take(k + 1).drop_last() =~= ms.take(k));
        lemma_read_fields_prefix_err(ms, k + 1);
    } else {
        assert(ms.take(k) =~= ms);
    }
}

/// The members of a file's JSON object read back as the file's fields.
proof fn lemma_file_json_fields(f: FileV)
    ensures
        read_fields(file_json(f)->Object_0) == Ok::<FieldsV, FileErrV>(
            (Some(base64_standard_encode(f.data)), f.name, f.content_type),
        ),
{
    reveal_strlit("data");
    reveal_strlit("name");
    reveal_strlit("contentType");
    let ms = file_json(f)->Object_0;
    assert("contentType"@.len() != "data"@.len());
    assert("contentType"@.len() != "name"@.len());
    assert("data"@[0] != "name"@[0]);
    let m1 = ms.take(1);
    let m2 = ms.take(2);
    assert(m1.drop_last() =~= Seq::<(Seq<char>, JsonV)>::empty());
    assert(m2.drop_last() =~= m1);
    assert(ms.drop_last() =~= m2);
    assert(read_fields(m1.drop_last()) == Ok::<FieldsV, FileErrV>((None, None, None)));
    assert(m1.last() == ("contentType"@, opt_json(f.content_type)));
    assert(read_field((None, None, None), "contentType"@, opt_json(f.content_type)) == Ok::<
        FieldsV,
        FileErrV,
    >((None, None, f.content_type)));
    assert(read_fields(m1) == Ok::<FieldsV, FileErrV>((None, None, f.content_type)));
    assert(m2.last() == ("data"@, JsonV::Str(base64_standard_encode(f.data))));
    assert(ms.last() == ("name"@, opt_json(f.name)));
    assert(read_fields(m2) == Ok::<FieldsV, FileErrV>(
        (Some(base64_standard_encode(f.data)), None, f.content_type),
    ));
}

fn copy_opt(o: &Option<String>) -> (r: Option<String>)
    ensures
        opt_view(r) == opt_view(*o),
{
    match o {
        Some(s) => Some(s.clone()),
        None => None,
    }
}

fn opt_to_json(o: Option<String>) -> (j: Json)
    ensures
        j@ == opt_json(opt_view(o)),
{
    match o {
        Some(s) => Json::String(s),
        None => Json::Null,
    }
}

impl ORPCFile {
    /// A file holding `data`, with no name and no content type.
    pub fn new(data: Vec<u8>) -> (f: ORPCFile)
        ensures
            f.data@ == data@,
            f.name is None,
            f.content_type is None,
    {
        ORPCFile { data, name: None, content_type: None }
    }

    /// Sets the file name; every other field is kept.
    pub fn with_name(self, name: &str) -> (f: ORPCFile)
        ensures
            f.data@ == self.data@,
            f.name matches Some(n) && n@ == name@,
            opt_view(f.content_type) == opt_view(self.content_type),
    {
        ORPCFile { data: self.data, name: Some(owned(name)), content_type: self.content_type }
    }

    /// Sets the content type; every other field is kept.
    pub fn with_content_type(self, content_type: &str) -> (f: ORPCFile)
        ensures
            f.data@ == self.data@,
            opt_view(f.name) == opt_view(self.name),
            f.content_type matches Some(c) && c@ == content_type@,
    {
        ORPCFile { data: self.data, name: self.name, content_type: Some(owned(content_type)) }
    }

    /// The JSON object that represents this file (see [`file_json`]).
    /// Reading that object back gives this file again.
    pub fn to_json(&self) -> (j: Json)
        requires
            base64_len_fits(self.data@.len()),
        ensures
            j@ == file_json(self@),
            file_from_json(j@) == Ok::<FileV, FileErrV>(self@),
    {
        let mut members: Vec<(String, Json)> = Vec::new();
        members.push((owned("contentType"), opt_to_json(copy_opt(&self.content_type))));
        members.push((owned("data"), Json::String(base64_encode(self.data.as_slice()))));
        members.push((owned("name"), opt_to_json(copy_opt(&self.name))));
        proof {
            lemma_object_view(members);
            assert(members_view(members@) =~= match file_json(self@) {
                JsonV::Object(m) => m,
                _ => Seq::empty(),
            });
            lemma_file_json_fields(self@);
        }
        Json::Object(members)
    }

    /// Reads a file from its JSON object (see [`file_from_json`]).
    pub fn from_json(v: &Json) -> (r: Result<ORPCFile, FileDecodeError>)
        ensures
            match file_from_json(v@) {
                Ok(f) => r matches Ok(g) && g@ == f,
                Err(e) => r matches Err(d) && d@ == e,
            },
    {
        let ms = match v {
            Json::Object(ms) => ms,
            _ => return Err(FileDecodeError::NotAnObject),
        };
        proof {
            lemma_object_view(*ms);
        }
        let ghost mv = members_view(ms@);
        let mut data: Option<String> = None;
        let mut name: Option<String> = None;
        let mut content_type: Option<String> = None;
        let n = ms.len();
        let mut i: usize = 0;
        proof {
            assert(mv.take(0) =~= Seq::<(Seq<char>, JsonV)>::empty());
        }
        while i < n
            invariant
                n == ms@.len(),
                mv == members_view(ms@),
                v@ == JsonV::Object(mv),
                0 <= i <= n,
                read_fields(mv.take(i as int)) == Ok::<FieldsV, FileErrV>(
                    (opt_view(data), opt_view(name), opt_view(content_type)),
                ),
            decreases n - i,
        {
            proof {
                assert(mv.take(i + 1).drop_last() =~= mv.take(i as int));
                assert(mv.take(i + 1).last() == mv[i as int]);
                reveal_strlit("data");
                reveal_strlit("name");
                reveal_strlit("contentType");
            }
            let key = &ms[i].0;
            let value = &ms[i].1;
            let step: Result<(), FileDecodeError> = if str_eq(key.as_str(), "data") {
                match value {
                    Json::String(s) => {
                        data = Some(s.clone());
                        Ok(())
                    },
                    _ => Err(FileDecodeError::InvalidType(FileField::Data)),
                }
            } else if str_eq(key.as_str(), "name") {
                match value {
                    Json::String(s) => {
                        name = Some(s.clone());
                        Ok(())
                    },
                    Json::Null => {
                        name = None;
                        Ok(())
                    },
                    _ => Err(FileDecodeError::InvalidType(FileField::Name)),
                }
            } else if str_eq(key.as_str(), "contentType") {
                match value {
                    Json::String(s) => {
                        content_type = Some(s.clone());
                        Ok(())
                    },
                    Json::Null => {
                        content_type = None;
                        Ok(())
                    },
                    _ => Err(FileDecodeError::InvalidType(FileField::ContentType)),
                }
            } else {
                Err(FileDecodeError::UnknownField(key.clone()))
            };
            match step {
                Ok(()) => {},
                Err(e) => {
                    proof {
                        lemma_read_fields_prefix_err(mv, i + 1);
                    }
                    return Err(e);
                },
            }
            i = i + 1;
        }
        proof {
            assert(mv.take(n as int) =~= mv);
        }
        let text = match data {
            Some(t) => t,
            None => return Err(FileDecodeError::MissingData),
        };
        match base64_decode(text.as_str()) {
            Ok(bytes) => Ok(ORPCFile { data: bytes, name, content_type }),
            Err(m) => Err(FileDecodeError::InvalidBase64(m)),
        }
    }
}

} // verus!
