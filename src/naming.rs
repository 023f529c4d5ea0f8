//! Names under which uploaded files are stored, and the paths built from them.
use vstd::prelude::*;
use vstd::string::StringExecFns;

verus! {

/// What `sanitize_filename::sanitize` makes of a sender-declared filename.
pub uninterp spec fn sanitized(name: Seq<char>) -> Seq<char>;

/// A name that stands for one entry directly under a directory: it holds no
/// path separator and is neither `.` nor `..`.
pub open spec fn is_plain_component(name: Seq<char>) -> bool {
    &&& !name.contains('/')
    &&& !name.contains('\\')
    &&& name != seq!['.']
    &&& name != seq!['.', '.']
}

pub open spec fn is_lower_hex_digit(c: char) -> bool {
    ('0' <= c && c <= '9') || ('a' <= c && c <= 'f')
}

/// The text of a UUID in its lowercase hyphenated form: 36 characters, with
/// hyphens at positions 8, 13, 18 and 23 and hexadecimal digits elsewhere.
pub open spec fn is_hyphenated_uuid(s: Seq<char>) -> bool {
    &&& s.len() == 36
    &&& forall|i: int|
        0 <= i < 36 ==> if i == 8 || i == 13 || i == 18 || i == 23 {
            s[i] == '-'
        } else {
            is_lower_hex_digit(#[trigger] s[i])
        }
}

/// The path of the entry `name` directly under `dir`.
pub open spec fn joined(dir: Seq<char>, name: Seq<char>) -> Seq<char> {
    dir + seq!['/'] + name
}

/// Relies on `sanitize_filename::sanitize` (default options). Its source
/// deletes every `/` and `\`, replaces a name made of dots only by the empty
/// string, and keeps at least 252 bytes when it truncates, so the result is
/// never `.` or `..`; it leaves the empty name empty.
#[verifier::external_body]
pub(crate) fn sanitize_name(name: &str) -> (r: String)
    ensures
        r@ == sanitized(name@),
        is_plain_component(r@),
        name@.len() == 0 ==> r@.len() == 0,
{
    sanitize_filename::sanitize(name)
}

/// Relies on `uuid::Uuid::new_v4` and its `Display` impl: a random version 4
/// UUID, written in lowercase hyphenated form.
#[verifier::external_body]
pub(crate) fn fresh_identifier() -> (r: String)
    ensures
        is_hyphenated_uuid(r@),
{
    uuid::Uuid::new_v4().to_string()
}

/// A generated identifier is never a path separator, `.` or `..`.
pub proof fn lemma_uuid_is_plain_component(s: Seq<char>)
    requires
        is_hyphenated_uuid(s),
    ensures
        is_plain_component(s),
        s.len() > 0,
{
    assert(s[8] == '-');
    if s.contains('/') {
        let i = choose|i: int| 0 <= i < s.len() && s[i] == '/';
        assert(is_lower_hex_digit(s[i]) || s[i] == '-');
    }
    if s.contains('\\') {
        let i = choose|i: int| 0 <= i < s.len() && s[i] == '\\';
        assert(is_lower_hex_digit(s[i]) || s[i] == '-');
    }
}

/// The path of `name` directly under `dir`, joined by a `/`.
pub fn join_path(dir: &String, name: &String) -> (r: String)
    ensures
        r@ == joined(dir@, name@),
{
    let mut path = dir.clone();
    proof {
        reveal_strlit("/");
    }
    path.append("/");
    path.append(name.as_str());
    path
}

} // verus!
