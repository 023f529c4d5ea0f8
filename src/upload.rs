//! The records that multipart ingestion produces, one per form part, and the
//! rules that turn a fully buffered part into its record.
use vstd::prelude::*;
use vstd::utf8::{decode_utf8, valid_utf8};
use crate::naming::{
    is_hyphenated_uuid, is_plain_component, join_path, joined, lemma_uuid_is_plain_component, sanitize_name,
    sanitized,
};

verus! {

/// A part that carried content-type metadata, stored as a file.
#[derive(Debug, Clone)]
pub struct FileResponse {
    /// The form field the part was sent under.
    pub name: String,
    /// The part's bytes, as written to disk.
    pub value: Vec<u8>,
    /// The name the file is stored under in the destination directory.
    pub file_name: String,
    /// The extension the sender declared, or empty.
    pub ext: String,
}

/// A part without content-type metadata, kept in memory as text.
#[derive(Debug, Clone)]
pub struct TextResponse {
    pub name: String,
    pub value: String,
}

#[derive(Debug, Clone)]
pub enum MultipartResponse {
    FILE(FileResponse),
    TEXT(TextResponse),
}

/// The mathematical form of a record.
pub enum RecordModel {
    File { field: Seq<char>, bytes: Seq<u8>, stored_name: Seq<char>, ext: Seq<char> },
    Text { field: Seq<char>, value: Seq<char> },
}

impl View for MultipartResponse {
    type V = RecordModel;

    open spec fn view(&self) -> RecordModel {
        match self {
            MultipartResponse::FILE(f) => RecordModel::File {
                field: f.name@,
                bytes: f.value@,
                stored_name: f.file_name@,
                ext: f.ext@,
            },
            MultipartResponse::TEXT(t) => RecordModel::Text { field: t.name@, value: t.value@ },
        }
    }
}

impl FileResponse {
    /// The number of bytes stored.
    pub fn size(&self) -> (r: usize)
        ensures
            r == self.value@.len(),
    {
        self.value.len()
    }
}

/// One form part, with all of its chunks gathered.
pub struct Part {
    /// The form field name.
    pub name: String,
    /// The content type the sender declared, if any.
    pub content_type: Option<String>,
    /// The filename the sender declared, if any.
    pub filename: Option<String>,
    /// The filename extension the transport exposes, if any.
    pub ext: Option<String>,
    /// The part's bytes, in the order they arrived.
    pub bytes: Vec<u8>,
}

pub struct PartModel {
    pub name: Seq<char>,
    pub content_type: Option<Seq<char>>,
    pub filename: Option<Seq<char>>,
    pub ext: Option<Seq<char>>,
    pub bytes: Seq<u8>,
}

pub open spec fn opt_view(o: Option<String>) -> Option<Seq<char>> {
    match o {
        Some(s) => Some(s@),
        None => None,
    }
}

impl View for Part {
    type V = PartModel;

    open spec fn view(&self) -> PartModel {
        PartModel {
            name: self.name@,
            content_type: opt_view(self.content_type),
            filename: opt_view(self.filename),
            ext: opt_view(self.ext),
            bytes: self.bytes@,
        }
    }
}

impl Part {
    /// A part with the given header and no bytes yet.
    pub fn new(name: String, content_type: Option<String>, filename: Option<String>, ext: Option<String>) -> (r: Part)
        ensures
            r.name == name,
            r.content_type == content_type,
            r.filename == filename,
            r.ext == ext,
            r.bytes@ == Seq::<u8>::empty(),
    {
        Part { name, content_type, filename, ext, bytes: Vec::new() }
    }

    /// Appends one chunk of the part's body.
    pub fn push_chunk(&mut self, chunk: &[u8])
        ensures
            final(self).bytes@ == old(self).bytes@ + chunk@,
            final(self).name == old(self).name,
            final(self).content_type == old(self).content_type,
            final(self).filename == old(self).filename,
            final(self).ext == old(self).ext,
    {
        let mut i: usize = 0;
        while i < chunk.len()
            invariant
                i <= chunk@.len(),
                self.bytes@ == old(self).bytes@ + chunk@.subrange(0, i as int),
                self.name == old(self).name,
                self.content_type == old(self).content_type,
                self.filename == old(self).filename,
                self.ext == old(self).ext,
            decreases chunk@.len() - i,
        {
            self.bytes.push(chunk[i]);
            i = i + 1;
            assert(chunk@.subrange(0, i as int) =~= chunk@.subrange(0, i - 1) + seq![chunk@[i - 1]]);
        }
        assert(chunk@.subrange(0, chunk@.len() as int) =~= chunk@);
    }

    /// Whether the part is stored as a file: it carries content-type metadata.
    pub fn is_file(&self) -> (r: bool)
        ensures
            r == self.content_type.is_some(),
    {
        self.content_type.is_some()
    }
}

/// The text of a part without content-type metadata: its bytes decoded as
/// UTF-8, or empty where they are not valid UTF-8.
pub open spec fn lossy_text(bytes: Seq<u8>) -> Seq<char> {
    if valid_utf8(bytes) {
        decode_utf8(bytes)
    } else {
        Seq::empty()
    }
}

/// The name a file part is stored under: its declared filename sanitized, or
/// the generated identifier `fresh` where it declared none.
pub open spec fn stored_name_of(filename: Option<Seq<char>>, fresh: Seq<char>) -> Seq<char> {
    match filename {
        Some(f) => sanitized(f),
        None => fresh,
    }
}

pub open spec fn ext_of(ext: Option<Seq<char>>) -> Seq<char> {
    match ext {
        Some(e) => e,
        None => Seq::empty(),
    }
}

/// The record a part yields; `fresh` is the identifier a file part without a
/// declared filename is stored under.
pub open spec fn record_of(p: PartModel, fresh: Seq<char>) -> RecordModel {
    if p.content_type.is_some() {
        RecordModel::File {
            field: p.name,
            bytes: p.bytes,
            stored_name: stored_name_of(p.filename, fresh),
            ext: ext_of(p.ext),
        }
    } else {
        RecordModel::Text { field: p.name, value: lossy_text(p.bytes) }
    }
}

/// Relies on `std::str::from_utf8`: it succeeds exactly on valid UTF-8, and
/// the string it returns holds the decoded characters.
#[verifier::external_body]
fn decode_utf8_strict(bytes: &[u8]) -> (r: Option<String>)
    ensures
        r.is_some() == valid_utf8(bytes@),
        r.is_some() ==> r->0@ == decode_utf8(bytes@),
{
    std::str::from_utf8(bytes).ok().map(|s| s.to_owned())
}

/// The text record of a part without content-type metadata.
pub fn text_record(name: String, bytes: &[u8]) -> (r: TextResponse)
    ensures
        r.name == name,
        r.value@ == lossy_text(bytes@),
{
    let value = match decode_utf8_strict(bytes) {
        Some(s) => s,
        None => String::new(),
    };
    TextResponse { name, value }
}

/// The name a file part is stored under, given the identifier to use where no
/// filename was declared.
pub fn resolve_stored_name(filename: &Option<String>, fresh: String) -> (r: String)
    ensures
        r@ == stored_name_of(opt_view(*filename), fresh@),
        filename.is_some() ==> is_plain_component(r@),
{
    match filename {
        Some(f) => sanitize_name(f.as_str()),
        None => fresh,
    }
}

/// A file to create (or overwrite) and fill with the given bytes.
pub struct WriteRequest {
    pub path: String,
    pub bytes: Vec<u8>,
}

/// The record and the write request of a file part, once its stored name is
/// known.
pub fn plan_file(field: String, stored_name: String, ext: Option<String>, bytes: Vec<u8>, destination_dir: &String) -> (r: (FileResponse, WriteRequest))
    ensures
        r.0.name == field,
        r.0.file_name == stored_name,
        r.0.ext@ == ext_of(opt_view(ext)),
        r.0.value == bytes,
        r.1.path@ == joined(destination_dir@, stored_name@),
        r.1.bytes@ == bytes@,
{
    let ext = match ext {
        Some(e) => e,
        None => String::new(),
    };
    let path = join_path(destination_dir, &stored_name);
    let copy = bytes.clone();
    assert(copy@ =~= bytes@);
    let f = FileResponse { name: field, value: bytes, file_name: stored_name, ext };
    (f, WriteRequest { path, bytes: copy })
}

/// A part classified and named: its record, and for a file part the file to
/// write.
pub fn classify_with(part: Part, destination_dir: &String, fresh: String) -> (r: (MultipartResponse, Option<WriteRequest>))
    ensures
        r.0@ == record_of(part@, fresh@),
        part.content_type.is_none() ==> r.1.is_none(),
        part.content_type.is_some() ==> r.1.is_some()
            && r.1->0.path@ == joined(destination_dir@, stored_name_of(part@.filename, fresh@))
            && r.1->0.bytes@ == part.bytes@,
        part.content_type.is_some() && (part.filename.is_some() || is_hyphenated_uuid(fresh@))
            ==> is_plain_component(stored_name_of(part@.filename, fresh@)),
{
    if part.content_type.is_none() {
        let t = text_record(part.name, part.bytes.as_slice());
        (MultipartResponse::TEXT(t), None)
    } else {
        proof {
            if part.filename.is_none() && is_hyphenated_uuid(fresh@) {
                lemma_uuid_is_plain_component(fresh@);
            }
        }
        let stored = resolve_stored_name(&part.filename, fresh);
        let (f, w) = plan_file(part.name, stored, part.ext, part.bytes, destination_dir);
        (MultipartResponse::FILE(f), Some(w))
    }
}

/// Whether classifying the part needs a generated identifier: it is a file
/// part that declared no filename.
pub fn needs_identifier(part: &Part) -> (r: bool)
    ensures
        r == (part.content_type.is_some() && part.filename.is_none()),
{
    part.content_type.is_some() && part.filename.is_none()
}

} // verus!
