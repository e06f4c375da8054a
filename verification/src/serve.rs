//! What the HTTP server answers: the page's script with the websocket
//! address appended, the index page, and files typed by their extension.

use vstd::prelude::*;
use rocket::http::ContentType;
use include_dir::{Dir, File};
use crate::registry::DirRegistry;
use crate::text::{last_piece, split_on, utf8_text};

verus! {

/// The HTTP content type of a response.
#[verifier::external_type_specification]
#[verifier::external_body]
pub struct ExContentType(ContentType);

/// `s` with its ASCII capital letters made small.
pub open spec fn ascii_lowercase(s: Seq<char>) -> Seq<char> {
    Seq::new(
        s.len(),
        |i: int|
            if 'A' <= s[i] <= 'Z' {
                ((s[i] as u32) + 32) as char
            } else {
                s[i]
            },
    )
}

/// What `ContentType::from_extension` gives for the lower-case extension
/// `ext`: the content type of `ext` in rocket's table of known extensions,
/// or nothing where the table does not hold `ext`.
pub uninterp spec fn extension_content_type(ext: Seq<char>) -> Option<ContentType>;

/// Trusted: `ContentType::from_extension(ext)`. Rocket compares `ext` with
/// the table's extensions, all lower-case there, without regard to ASCII
/// case, so its result is the one it has for the lower-cased `ext`.
#[verifier::external_body]
fn content_type_from_extension(ext: &str) -> (r: Option<ContentType>)
    ensures
        r == extension_content_type(ascii_lowercase(ext@)),
{
    ContentType::from_extension(ext)
}

/// The content type an answer is sent with.
#[derive(Debug, PartialEq)]
pub enum AnswerType {
    /// The content type rocket's table gives for a file's extension.
    Known(ContentType),
    /// Plain text in UTF-8 (`ContentType::Text`).
    PlainText,
    /// An HTML page (`ContentType::HTML`).
    Html,
    /// A script (`ContentType::JavaScript`).
    JavaScript,
}

/// A folder embedded in the program.
#[verifier::external_type_specification]
#[verifier::external_body]
pub struct ExDir<'a>(Dir<'a>);

/// A file of a folder embedded in the program.
#[verifier::external_type_specification]
#[verifier::external_body]
pub struct ExFile<'a>(File<'a>);

/// What an embedded folder holds: for each path text for which
/// `Dir::get_file` finds a file (in the folder or one of its subfolders),
/// the bytes of that file.
pub uninterp spec fn folder_files(dir: Dir) -> Map<Seq<char>, Seq<u8>>;

/// What an embedded file holds: its bytes.
pub uninterp spec fn file_contents(file: File) -> Seq<u8>;

/// Trusted: `include_dir::Dir::get_file(path)`, the file that the folder
/// holds under `path`, if there is one.
#[verifier::external_body]
fn dir_file<'a>(dir: &Dir<'a>, path: &str) -> (r: Option<&'a File<'a>>)
    ensures
        r is Some <==> folder_files(*dir).contains_key(path@),
        r matches Some(f) ==> file_contents(*f) == folder_files(*dir)[path@],
{
    dir.get_file(path)
}

/// Trusted: `include_dir::File::contents`, the file's bytes.
#[verifier::external_body]
fn file_bytes<'b>(file: &'b File<'_>) -> (r: &'b [u8])
    ensures
        r@ == file_contents(*file),
{
    file.contents()
}

/// The bytes of the file `name` in the embedded folder of window `id`, if
/// the window has one and it holds such a file.
pub open spec fn embedded_bytes(dirs: Map<usize, &Dir>, id: usize, name: Seq<char>) -> Option<
    Seq<u8>,
> {
    if dirs.contains_key(id) && folder_files(*dirs[id]).contains_key(name) {
        Some(folder_files(*dirs[id])[name])
    } else {
        None
    }
}

/// The bytes of the file `name` in the embedded folder of window `id`;
/// nothing where the window has no embedded folder or the folder no such file.
pub fn embedded_file<'a>(dirs: &DirRegistry<&'a Dir<'a>>, id: usize, name: &str) -> (r: Option<
    Vec<u8>,
>)
    ensures
        match r {
            Some(b) => embedded_bytes(dirs@, id, name@) == Some(b@),
            None => embedded_bytes(dirs@, id, name@) is None,
        },
{
    match dirs.get(id) {
        Some(dir) => match dir_file(*dir, name) {
            Some(file) => Some(vstd::slice::slice_to_vec(file_bytes(file))),
            None => None,
        },
        None => None,
    }
}

/// The index page of the embedded folder of window `id` as text; nothing
/// where there is no such page or its bytes are not UTF-8.
pub fn embedded_index_page<'a>(dirs: &DirRegistry<&'a Dir<'a>>, id: usize) -> (r: Option<String>)
    ensures
        match embedded_bytes(dirs@, id, "index.html"@) {
            Some(b) => if vstd::utf8::valid_utf8(b) {
                r matches Some(s) && s@ == vstd::utf8::decode_utf8(b)
            } else {
                r is None
            },
            None => r is None,
        },
{
    match embedded_file(dirs, id, index_file_name()) {
        Some(bytes) => utf8_text(bytes.as_slice()),
        None => None,
    }
}

/// The file of an embedded folder that the index page is read from.
pub fn index_file_name() -> (r: &'static str)
    ensures
        r@ == "index.html"@,
{
    "index.html"
}

/// The extension of a requested path: the text after its last dot, or the
/// whole path where it has no dot.
pub open spec fn extension_text(path: Seq<char>) -> Seq<char> {
    split_on(path, '.').last()
}

/// The extension of a requested path.
pub fn extension_of(path: &str) -> (r: String)
    ensures
        r@ == extension_text(path@),
{
    last_piece(path, '.')
}

/// The content type a file is sent with, given what rocket's table gives
/// for its extension: that, or plain text where the table has none.
pub open spec fn answer_type_of_found(found: Option<ContentType>) -> AnswerType {
    match found {
        Some(t) => AnswerType::Known(t),
        None => AnswerType::PlainText,
    }
}

/// The content type a file served under `path` is sent with.
pub open spec fn path_answer_type(path: Seq<char>) -> AnswerType {
    answer_type_of_found(extension_content_type(ascii_lowercase(extension_text(path))))
}

/// A file is typed by the text after the last dot of its path (all of the
/// path where it has no dot): whatever text `e` holds no dot, ends the path,
/// and is all of it or follows a dot, the file is sent with what rocket's
/// table gives for `e` lower-cased, or as plain text where it gives nothing.
pub proof fn lemma_typed_by_text_after_last_dot(path: Seq<char>, e: Seq<char>)
    requires
        !e.contains('.'),
        e.len() <= path.len(),
        path.skip(path.len() - e.len()) == e,
        e.len() == path.len() || path[path.len() - e.len() - 1] == '.',
    ensures
        extension_text(path) == e,
        path_answer_type(path) == match extension_content_type(ascii_lowercase(e)) {
            Some(t) => AnswerType::Known(t),
            None => AnswerType::PlainText,
        },
{
    crate::text::lemma_text_after_last_unique(path, '.', e);
}

/// Every path has such a text after its last dot: its extension.
pub proof fn lemma_extension_is_after_last_dot(path: Seq<char>)
    ensures
        ({
            let e = extension_text(path);
            &&& !e.contains('.')
            &&& e.len() <= path.len()
            &&& path.skip(path.len() - e.len()) == e
            &&& (e.len() == path.len() || path[path.len() - e.len() - 1] == '.')
        }),
{
    crate::text::lemma_last_piece_after_last(path, '.');
}

/// The content type a file is sent with, given what rocket's table gives
/// for its extension.
pub fn answer_type_of(found: Option<ContentType>) -> (r: AnswerType)
    ensures
        r == answer_type_of_found(found),
{
    match found {
        Some(t) => AnswerType::Known(t),
        None => AnswerType::PlainText,
    }
}

/// The content type that a file served under `path` is sent with: the one
/// rocket knows for the path's extension, else plain text.
pub fn content_type_for_path(path: &str) -> (r: AnswerType)
    ensures
        r == path_answer_type(path@),
{
    let ext = extension_of(path);
    let found = content_type_from_extension(ext.as_str());
    answer_type_of(found)
}

/// The answer for a file served under `path` whose bytes are `body`: the
/// bytes, typed by the path's extension.
pub fn file_response(path: &str, body: Vec<u8>) -> (r: (AnswerType, Vec<u8>))
    ensures
        r.0 == path_answer_type(path@),
        r.1@ == body@,
{
    (content_type_for_path(path), body)
}

/// The answer for the index page: the page as HTML.
pub fn index_response(page: String) -> (r: (AnswerType, String))
    ensures
        r.0 == AnswerType::Html,
        r.1 == page,
{
    (AnswerType::Html, page)
}

/// The lines appended to the page's script: they set the websocket address
/// and start the script.
pub open spec fn script_tail_text(websocket_path: Seq<char>) -> Seq<char> {
    "\ndolphine._socket = "@ + websocket_path + ";\ndolphine._init();"@
}

/// The script for the page: the script's own bytes, then the UTF-8 bytes of
/// the lines that set the websocket address and start it.
pub fn script_response(script: &[u8], websocket_path: &str) -> (r: (AnswerType, Vec<u8>))
    ensures
        r.0 == AnswerType::JavaScript,
        r.1@ == script@ + vstd::utf8::encode_utf8(script_tail_text(websocket_path@)),
{
    let mut tail = String::from_str("\ndolphine._socket = ");
    tail.append(websocket_path);
    tail.append(";\ndolphine._init();");
    let tail_bytes = tail.as_str().as_bytes();
    let mut body: Vec<u8> = Vec::new();
    let mut i: usize = 0;
    while i < script.len()
        invariant
            i <= script@.len(),
            body@ == script@.take(i as int),
        decreases script@.len() - i,
    {
        body.push(script[i]);
        assert(script@.take(i + 1) =~= script@.take(i as int).push(script@[i as int]));
        i = i + 1;
    }
    let mut j: usize = 0;
    while j < tail_bytes.len()
        invariant
            j <= tail_bytes@.len(),
            body@ == script@ + tail_bytes@.take(j as int),
        decreases tail_bytes@.len() - j,
    {
        body.push(tail_bytes[j]);
        assert(tail_bytes@.take(j + 1) =~= tail_bytes@.take(j as int).push(tail_bytes@[j as int]));
        j = j + 1;
    }
    assert(script@.take(script@.len() as int) =~= script@);
    assert(tail_bytes@.take(tail_bytes@.len() as int) =~= tail_bytes@);
    (AnswerType::JavaScript, body)
}

} // verus!
