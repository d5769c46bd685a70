//! File metadata as listed to users: MIME types by extension and
//! permission strings.

use vstd::prelude::*;
use crate::text::{chars_of, same_text, string_of};

verus! {

/// One entry of a directory listing.
#[derive(Debug, Clone)]
pub struct FileObject {
    pub object: String,
    pub attributes: FileAttributes,
}

/// Metadata of a listed file.
#[derive(Debug, Clone)]
pub struct FileAttributes {
    pub name: String,
    pub mode: String,
    pub mode_bits: String,
    pub size: u64,
    pub is_file: bool,
    pub is_symlink: bool,
    pub mimetype: String,
    pub created_at: String,
    pub modified_at: String,
}

/// Names the result of `str::to_lowercase` on `s`.
pub uninterp spec fn lower_of(s: Seq<char>) -> Seq<char>;

/// Relies on `str::to_lowercase`: the result depends on the characters alone.
#[verifier::external_body]
pub(crate) fn lowercase(s: &str) -> (r: String)
    ensures
        r@ == lower_of(s@),
{
    s.to_lowercase()
}

/// The MIME type of a lower-case file extension.
pub open spec fn mime_of(ext: Seq<char>) -> Seq<char> {
    if ext == "txt"@ {
        "text/plain"@
    } else if ext == "md"@ {
        "text/markdown"@
    } else if ext == "json"@ {
        "application/json"@
    } else if ext == "xml"@ {
        "application/xml"@
    } else if ext == "yaml"@ || ext == "yml"@ {
        "application/x-yaml"@
    } else if ext == "toml"@ {
        "application/toml"@
    } else if ext == "ini"@ || ext == "conf"@ || ext == "cfg"@ {
        "text/plain"@
    } else if ext == "sh"@ || ext == "bash"@ {
        "application/x-sh"@
    } else if ext == "py"@ {
        "text/x-python"@
    } else if ext == "js"@ {
        "application/javascript"@
    } else if ext == "ts"@ {
        "application/typescript"@
    } else if ext == "rb"@ {
        "text/x-ruby"@
    } else if ext == "php"@ {
        "application/x-php"@
    } else if ext == "pl"@ {
        "text/x-perl"@
    } else if ext == "html"@ || ext == "htm"@ {
        "text/html"@
    } else if ext == "css"@ {
        "text/css"@
    } else if ext == "c"@ {
        "text/x-c"@
    } else if ext == "cpp"@ || ext == "cc"@ || ext == "cxx"@ {
        "text/x-c++"@
    } else if ext == "h"@ || ext == "hpp"@ {
        "text/x-c"@
    } else if ext == "rs"@ {
        "text/x-rust"@
    } else if ext == "go"@ {
        "text/x-go"@
    } else if ext == "java"@ {
        "text/x-java"@
    } else if ext == "zip"@ {
        "application/zip"@
    } else if ext == "tar"@ {
        "application/x-tar"@
    } else if ext == "gz"@ {
        "application/gzip"@
    } else if ext == "bz2"@ {
        "application/x-bzip2"@
    } else if ext == "xz"@ {
        "application/x-xz"@
    } else if ext == "7z"@ {
        "application/x-7z-compressed"@
    } else if ext == "rar"@ {
        "application/vnd.rar"@
    } else if ext == "jpg"@ || ext == "jpeg"@ {
        "image/jpeg"@
    } else if ext == "png"@ {
        "image/png"@
    } else if ext == "gif"@ {
        "image/gif"@
    } else if ext == "bmp"@ {
        "image/bmp"@
    } else if ext == "svg"@ {
        "image/svg+xml"@
    } else if ext == "webp"@ {
        "image/webp"@
    } else if ext == "ico"@ {
        "image/x-icon"@
    } else if ext == "pdf"@ {
        "application/pdf"@
    } else if ext == "doc"@ {
        "application/msword"@
    } else if ext == "docx"@ {
        "application/vnd.openxmlformats-officedocument.wordprocessingml.document"@
    } else if ext == "xls"@ {
        "application/vnd.ms-excel"@
    } else if ext == "xlsx"@ {
        "application/vnd.openxmlformats-officedocument.spreadsheetml.sheet"@
    } else if ext == "ppt"@ {
        "application/vnd.ms-powerpoint"@
    } else if ext == "pptx"@ {
        "application/vnd.openxmlformats-officedocument.presentationml.presentation"@
    } else if ext == "db"@ || ext == "sqlite"@ || ext == "sqlite3"@ {
        "application/x-sqlite3"@
    } else if ext == "sql"@ {
        "application/sql"@
    } else if ext == "log"@ {
        "text/plain"@
    } else {
        "application/octet-stream"@
    }
}

/// The MIME type of a lower-case file extension.
pub fn mime_for_extension(ext: &str) -> (r: &'static str)
    ensures
        r@ == mime_of(ext@),
{
    if same_text(ext, "txt") {
        "text/plain"
    } else if same_text(ext, "md") {
        "text/markdown"
    } else if same_text(ext, "json") {
        "application/json"
    } else if same_text(ext, "xml") {
        "application/xml"
    } else if same_text(ext, "yaml") || same_text(ext, "yml") {
        "application/x-yaml"
    } else if same_text(ext, "toml") {
        "application/toml"
    } else if same_text(ext, "ini") || same_text(ext, "conf") || same_text(ext, "cfg") {
        "text/plain"
    } else if same_text(ext, "sh") || same_text(ext, "bash") {
        "application/x-sh"
    } else if same_text(ext, "py") {
        "text/x-python"
    } else if same_text(ext, "js") {
        "application/javascript"
    } else if same_text(ext, "ts") {
        "application/typescript"
    } else if same_text(ext, "rb") {
        "text/x-ruby"
    } else if same_text(ext, "php") {
        "application/x-php"
    } else if same_text(ext, "pl") {
        "text/x-perl"
    } else if same_text(ext, "html") || same_text(ext, "htm") {
        "text/html"
    } else if same_text(ext, "css") {
        "text/css"
    } else if same_text(ext, "c") {
        "text/x-c"
    } else if same_text(ext, "cpp") || same_text(ext, "cc") || same_text(ext, "cxx") {
        "text/x-c++"
    } else if same_text(ext, "h") || same_text(ext, "hpp") {
        "text/x-c"
    } else if same_text(ext, "rs") {
        "text/x-rust"
    } else if same_text(ext, "go") {
        "text/x-go"
    } else if same_text(ext, "java") {
        "text/x-java"
    } else if same_text(ext, "zip") {
        "application/zip"
    } else if same_text(ext, "tar") {
        "application/x-tar"
    } else if same_text(ext, "gz") {
        "application/gzip"
    } else if same_text(ext, "bz2") {
        "application/x-bzip2"
    } else if same_text(ext, "xz") {
        "application/x-xz"
    } else if same_text(ext, "7z") {
        "application/x-7z-compressed"
    } else if same_text(ext, "rar") {
        "application/vnd.rar"
    } else if same_text(ext, "jpg") || same_text(ext, "jpeg") {
        "image/jpeg"
    } else if same_text(ext, "png") {
        "image/png"
    } else if same_text(ext, "gif") {
        "image/gif"
    } else if same_text(ext, "bmp") {
        "image/bmp"
    } else if same_text(ext, "svg") {
        "image/svg+xml"
    } else if same_text(ext, "webp") {
        "image/webp"
    } else if same_text(ext, "ico") {
        "image/x-icon"
    } else if same_text(ext, "pdf") {
        "application/pdf"
    } else if same_text(ext, "doc") {
        "application/msword"
    } else if same_text(ext, "docx") {
        "application/vnd.openxmlformats-officedocument.wordprocessingml.document"
    } else if same_text(ext, "xls") {
        "application/vnd.ms-excel"
    } else if same_text(ext, "xlsx") {
        "application/vnd.openxmlformats-officedocument.spreadsheetml.sheet"
    } else if same_text(ext, "ppt") {
        "application/vnd.ms-powerpoint"
    } else if same_text(ext, "pptx") {
        "application/vnd.openxmlformats-officedocument.presentationml.presentation"
    } else if same_text(ext, "db") || same_text(ext, "sqlite") || same_text(ext, "sqlite3") {
        "application/x-sqlite3"
    } else if same_text(ext, "sql") {
        "application/sql"
    } else if same_text(ext, "log") {
        "text/plain"
    } else {
        "application/octet-stream"
    }
}

/// Position of the last "." of `s` at or after `from`, if any.
pub open spec fn last_dot_from(s: Seq<char>, from: int) -> Option<int>
    decreases s.len(),
{
    if s.len() == 0 || s.len() <= from {
        None
    } else if s.last() == '.' {
        Some(s.len() - 1)
    } else {
        last_dot_from(s.drop_last(), from)
    }
}

/// The last path component of `p`.
pub open spec fn file_name(p: Seq<char>) -> Seq<char>
    decreases p.len(),
{
    if p.len() == 0 {
        p
    } else if p.last() == '/' {
        Seq::empty()
    } else {
        file_name(p.drop_last()).push(p.last())
    }
}

/// The extension of the last path component: what follows its last "."
/// when that dot is not its first character; empty when there is none.
pub open spec fn extension_of(p: Seq<char>) -> Seq<char> {
    let name = file_name(p);
    match last_dot_from(name, 1) {
        Some(i) => name.subrange(i + 1, name.len() as int),
        None => Seq::empty(),
    }
}

/// The extension of the last path component of `path`.
pub fn extension(path: &str) -> (r: String)
    ensures
        r@ == extension_of(path@),
{
    let cs = chars_of(path);
    let mut start: usize = 0;
    let mut i: usize = 0;
    while i < cs.len()
        invariant
            cs@ == path@,
            start <= i <= cs@.len(),
            file_name(cs@.subrange(0, i as int)) == cs@.subrange(start as int, i as int),
        decreases cs.len() - i,
    {
        assert(cs@.subrange(0, i + 1).drop_last() =~= cs@.subrange(0, i as int));
        if cs[i] == '/' {
            start = i + 1;
            assert(cs@.subrange(start as int, i + 1) =~= Seq::<char>::empty());
        } else {
            assert(cs@.subrange(start as int, i + 1) =~= cs@.subrange(start as int, i as int).push(cs@[i as int]));
        }
        i = i + 1;
    }
    assert(cs@.subrange(0, cs@.len() as int) =~= cs@);
    let ghost name = cs@.subrange(start as int, cs@.len() as int);
    let mut j: usize = cs.len();
    while j - start > 1 && cs[j - 1] != '.'
        invariant
            cs@ == path@,
            start <= j <= cs@.len(),
            name == cs@.subrange(start as int, cs@.len() as int),
            last_dot_from(name, 1) == last_dot_from(cs@.subrange(start as int, j as int), 1),
        decreases j,
    {
        assert(cs@.subrange(start as int, j as int).drop_last() =~= cs@.subrange(start as int, j - 1));
        j = j - 1;
    }
    let mut out: Vec<char> = Vec::new();
    if j - start > 1 {
        assert(last_dot_from(cs@.subrange(start as int, j as int), 1) == Some(j - 1 - start));
        let mut k: usize = j;
        while k < cs.len()
            invariant
                j <= k <= cs@.len(),
                out@ == cs@.subrange(j as int, k as int),
            decreases cs.len() - k,
        {
            out.push(cs[k]);
            assert(out@ =~= cs@.subrange(j as int, k + 1));
            k = k + 1;
        }
        assert(out@ =~= name.subrange(j - start, name.len() as int));
    } else {
        assert(last_dot_from(cs@.subrange(start as int, j as int), 1).is_none());
    }
    string_of(out.as_slice())
}

/// The MIME type of the file at `path`, by its extension in lower case.
pub fn mimetype_from_extension(path: &str) -> (r: String)
    ensures
        r@ == mime_of(lower_of(extension_of(path@))),
{
    let ext = extension(path);
    let lower = lowercase(ext.as_str());
    String::from_str(mime_for_extension(lower.as_str()))
}

/// The type letter of a Unix mode: d, l, -, b, c, p, s, or ? otherwise.
pub open spec fn type_letter(mode: u32) -> char {
    let t = mode & 0o170000u32;
    if t == 0o040000u32 { 'd' }
    else if t == 0o120000u32 { 'l' }
    else if t == 0o100000u32 { '-' }
    else if t == 0o060000u32 { 'b' }
    else if t == 0o020000u32 { 'c' }
    else if t == 0o010000u32 { 'p' }
    else if t == 0o140000u32 { 's' }
    else { '?' }
}

/// `yes` when `bit` is set in `mode`, else '-'.
pub open spec fn flag(mode: u32, bit: u32, yes: char) -> char {
    if mode & bit != 0 { yes } else { '-' }
}

/// The listing form of a Unix mode, such as "-rw-r--r--".
pub open spec fn mode_text(mode: u32) -> Seq<char> {
    seq![
        type_letter(mode),
        flag(mode, 0o400u32, 'r'), flag(mode, 0o200u32, 'w'), flag(mode, 0o100u32, 'x'),
        flag(mode, 0o040u32, 'r'), flag(mode, 0o020u32, 'w'), flag(mode, 0o010u32, 'x'),
        flag(mode, 0o004u32, 'r'), flag(mode, 0o002u32, 'w'), flag(mode, 0o001u32, 'x')
    ]
}

/// `yes` when `bit` is set in `mode`, else '-'.
fn flag_char(mode: u32, bit: u32, yes: char) -> (r: char)
    ensures
        r == flag(mode, bit, yes),
{
    if mode & bit != 0 { yes } else { '-' }
}

/// The listing form of a Unix mode, such as "-rw-r--r--".
pub fn format_mode(mode: u32) -> (r: String)
    ensures
        r@ == mode_text(mode),
{
    let t = mode & 0o170000u32;
    let kind = if t == 0o040000u32 { 'd' }
        else if t == 0o120000u32 { 'l' }
        else if t == 0o100000u32 { '-' }
        else if t == 0o060000u32 { 'b' }
        else if t == 0o020000u32 { 'c' }
        else if t == 0o010000u32 { 'p' }
        else if t == 0o140000u32 { 's' }
        else { '?' };
    let cs: Vec<char> = vec![
        kind,
        flag_char(mode, 0o400u32, 'r'), flag_char(mode, 0o200u32, 'w'), flag_char(mode, 0o100u32, 'x'),
        flag_char(mode, 0o040u32, 'r'), flag_char(mode, 0o020u32, 'w'), flag_char(mode, 0o010u32, 'x'),
        flag_char(mode, 0o004u32, 'r'), flag_char(mode, 0o002u32, 'w'), flag_char(mode, 0o001u32, 'x')
    ];
    assert(cs@ =~= mode_text(mode));
    string_of(cs.as_slice())
}

} // verus!
