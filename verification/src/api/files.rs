//! The files that the viewer shows and edits.
use vstd::prelude::*;

use crate::api::ApiError;
use crate::paths::{extension, extension_of, file_name, file_name_of, file_stem, file_stem_of};
use crate::sorting::{
    by_text, law_stable_sorted, law_text_order, sort_texts, stable_sorted, text_le,
};
use crate::text::{
    lower, lowered, opt_text, or_text, str_eq, text_or, texts,
};

verus! {

/// A file as listed.
#[derive(Debug)]
pub struct FileEntry {
    pub path: String,
    pub name: String,
}

/// A request for a file.
#[derive(Debug)]
pub struct FileQuery {
    pub path: String,
    /// Asks for the PDF that a LaTeX source compiles to.
    pub compile_latex: bool,
    /// Asks for a download in place of a display.
    pub force_download: bool,
}

/// New content of a file.
#[derive(Debug)]
pub struct SavePayload {
    pub path: String,
    pub content: String,
}

/// A file to create.
#[derive(Debug)]
pub struct CreatePayload {
    pub path: String,
}

/// A file to rename.
#[derive(Debug)]
pub struct RenamePayload {
    pub old_path: String,
    pub new_path: String,
}

/// What the listing does with a directory entry.
#[derive(Debug, Clone, Copy, PartialEq, Eq, Structural)]
pub enum WalkStep {
    /// Leaves it out.
    Skip,
    /// Lists what is in it.
    Enter,
    /// Lists it.
    Take,
}

/// The directories that the listing leaves out.
pub open spec fn is_hidden_dir(name: Seq<char>) -> bool {
    name == ".git"@ || name == "target"@ || name == "node_modules"@
}

/// What the listing does with a directory entry.
pub fn walk(name: &str, is_dir: bool, is_file: bool) -> (r: WalkStep)
    ensures
        r == if is_dir {
            if is_hidden_dir(name@) {
                WalkStep::Skip
            } else {
                WalkStep::Enter
            }
        } else if is_file {
            WalkStep::Take
        } else {
            WalkStep::Skip
        },
{
    if is_dir {
        if str_eq(name, ".git") || str_eq(name, "target") || str_eq(name, "node_modules") {
            WalkStep::Skip
        } else {
            WalkStep::Enter
        }
    } else if is_file {
        WalkStep::Take
    } else {
        WalkStep::Skip
    }
}

/// The name under which a file is listed.
pub open spec fn shown_name(path: Seq<char>) -> Seq<char> {
    or_text(file_stem_of(path), path)
}

/// The files as listed, in the order of their paths.
pub fn list_files(paths: Vec<String>) -> (r: Vec<FileEntry>)
    ensures
        r@.map_values(|e: FileEntry| e.path@) == stable_sorted(texts(paths@), by_text()),
        forall|i: int| 0 <= i < r@.len() ==> (#[trigger] r@[i]).name@ == shown_name(r@[i].path@),
{
    let sorted: Vec<String> = sort_texts(paths);
    let ghost all = texts(sorted@);
    let mut out: Vec<FileEntry> = Vec::new();
    let mut i: usize = 0;
    while i < sorted.len()
        invariant
            i <= sorted@.len(),
            all == texts(sorted@),
            out@.map_values(|e: FileEntry| e.path@) == all.take(i as int),
            forall|k: int|
                0 <= k < out@.len() ==> (#[trigger] out@[k]).name@ == shown_name(out@[k].path@),
        decreases sorted@.len() - i,
    {
        let ghost had = out@.map_values(|e: FileEntry| e.path@);
        let path: String = sorted[i].clone();
        let name: String = text_or(file_stem(path.as_str()), path.as_str());
        out.push(FileEntry { path, name });
        assert(out@.map_values(|e: FileEntry| e.path@) =~= had.push(all[i as int]));
        i = i + 1;
        assert(out@.map_values(|e: FileEntry| e.path@) =~= all.take(i as int));
    }
    assert(all.take(all.len() as int) =~= all);
    out
}

/// A character that may stand in a file name of a header; `_` for one that
/// may not.
pub open spec fn header_char(c: char) -> char {
    if (c as u32) < 128 && c != '"' && c != '\\' {
        c
    } else {
        '_'
    }
}

/// Whether a character cannot stand in a header at all: a control character
/// other than the tab.
pub open spec fn is_control(c: char) -> bool {
    ((c as u32) < 32 && c != '\t') || c as u32 == 127
}

/// Whether a file name holds a character that cannot stand in a header.
pub open spec fn has_control(filename: Seq<char>) -> bool {
    exists|i: int| 0 <= i < filename.len() && is_control(#[trigger] filename[i])
}

/// The header that marks a response as a download.
pub open spec fn attachment_header(filename: Seq<char>) -> Seq<char> {
    "attachment; filename=\""@ + filename.map_values(|c: char| header_char(c)) + "\""@
}

/// The value of the header that marks a response as a download. Quotes,
/// backslashes and characters outside ASCII are replaced. There is no header
/// for a name with a control character.
pub fn set_attachment(filename: &str) -> (r: Option<String>)
    ensures
        match r {
            Some(h) => !has_control(filename@) && h@ == attachment_header(filename@),
            None => has_control(filename@),
        },
{
    let n: usize = filename.unicode_len();
    let ghost safe = filename@.map_values(|c: char| header_char(c));
    let mut out: String = "attachment; filename=\"".to_owned();
    let ghost start = out@;
    let mut i: usize = 0;
    assert(out@ =~= start + safe.take(0));
    while i < n
        invariant
            i <= n,
            n == filename@.len(),
            safe == filename@.map_values(|c: char| header_char(c)),
            out@ == start + safe.take(i as int),
            forall|k: int| 0 <= k < i ==> !is_control(#[trigger] filename@[k]),
        decreases n - i,
    {
        let c: char = filename.get_char(i);
        if ((c as u32) < 32 && c != '\t') || c as u32 == 127 {
            assert(is_control(filename@[i as int]));
            return None;
        }
        let d: char = if (c as u32) < 128 && c != '"' && c != '\\' {
            c
        } else {
            '_'
        };
        out.push(d);
        i = i + 1;
        assert(out@ =~= start + safe.take(i as int));
    }
    assert(safe.take(n as int) =~= safe);
    out.append("\"");
    Some(out)
}

/// The file name in a download header holds neither a quote nor a backslash,
/// nor anything outside ASCII, nor a control character.
pub proof fn law_attachment_names_are_safe(filename: Seq<char>, i: int)
    requires
        0 <= i < filename.len(),
        !has_control(filename),
    ensures
        ({
            let c = filename.map_values(|c: char| header_char(c))[i];
            c != '"' && c != '\\' && (c as u32) < 128 && !is_control(c)
        }),
{
}

/// The last component of a path, or the path.
pub open spec fn base_name(path: Seq<char>) -> Seq<char> {
    or_text(file_name_of(path), path)
}

pub fn basename(path: &str) -> (r: String)
    ensures
        r@ == base_name(path@),
{
    text_or(file_name(path), path)
}

/// The download name of a compiled LaTeX source.
pub open spec fn pdf_name(path: Seq<char>) -> Seq<char> {
    or_text(file_stem_of(path), "output"@) + ".pdf"@
}

pub fn pdf_download_name(path: &str) -> (r: String)
    ensures
        r@ == pdf_name(path@),
{
    let mut t: String = text_or(file_stem(path), "output");
    t.append(".pdf");
    t
}

/// The extension of a path in lower case; empty where it has none.
pub open spec fn lower_extension(path: Seq<char>) -> Seq<char> {
    lowered(or_text(extension_of(path), Seq::empty()))
}

fn find_extension(path: &str) -> (r: String)
    ensures
        r@ == lower_extension(path@),
{
    let e: String = match extension(path) {
        Some(e) => e,
        None => String::new(),
    };
    assert(e@ =~= or_text(extension_of(path@), Seq::empty()));
    lower(e.as_str())
}

/// Whether an extension is one of a LaTeX source.
pub open spec fn is_latex_extension(e: Seq<char>) -> bool {
    e == "tex"@ || e == "latex"@
}

/// Whether a path names a LaTeX source.
pub fn is_latex(path: &str) -> (r: bool)
    ensures
        r == is_latex_extension(lower_extension(path@)),
{
    let e: String = find_extension(path);
    str_eq(e.as_str(), "tex") || str_eq(e.as_str(), "latex")
}

/// The content type of an extension: that of text where nothing else is known.
pub open spec fn type_of_extension(e: Seq<char>) -> Seq<char> {
    if e == "png"@ {
        "image/png"@
    } else if e == "jpg"@ || e == "jpeg"@ {
        "image/jpeg"@
    } else if e == "gif"@ {
        "image/gif"@
    } else if e == "webp"@ {
        "image/webp"@
    } else if e == "avif"@ {
        "image/avif"@
    } else if e == "bmp"@ {
        "image/bmp"@
    } else if e == "ico"@ {
        "image/x-icon"@
    } else if e == "svg"@ {
        "image/svg+xml"@
    } else if e == "pdf"@ {
        "application/pdf"@
    } else if is_latex_extension(e) {
        "application/x-tex"@
    } else if e == "html"@ || e == "htm"@ {
        "text/html; charset=utf-8"@
    } else {
        "text/plain; charset=utf-8"@
    }
}

/// The content type of a file, by its extension.
pub fn content_type_for(path: &str) -> (r: &'static str)
    ensures
        r@ == type_of_extension(lower_extension(path@)),
{
    let ext: String = find_extension(path);
    let e: &str = ext.as_str();
    if str_eq(e, "png") {
        "image/png"
    } else if str_eq(e, "jpg") || str_eq(e, "jpeg") {
        "image/jpeg"
    } else if str_eq(e, "gif") {
        "image/gif"
    } else if str_eq(e, "webp") {
        "image/webp"
    } else if str_eq(e, "avif") {
        "image/avif"
    } else if str_eq(e, "bmp") {
        "image/bmp"
    } else if str_eq(e, "ico") {
        "image/x-icon"
    } else if str_eq(e, "svg") {
        "image/svg+xml"
    } else if str_eq(e, "pdf") {
        "application/pdf"
    } else if str_eq(e, "tex") || str_eq(e, "latex") {
        "application/x-tex"
    } else if str_eq(e, "html") || str_eq(e, "htm") {
        "text/html; charset=utf-8"
    } else {
        "text/plain; charset=utf-8"
    }
}

/// Why a LaTeX source was not compiled.
#[derive(Debug)]
pub enum CompileError {
    ToolMissing,
    Timeout,
    Failed { log: String },
    Io(String),
}

/// What a response carries.
#[derive(Debug)]
pub enum Body {
    Bytes(Vec<u8>),
    Text(String),
}

/// A response to a request for a file.
#[derive(Debug)]
pub struct FileResponse {
    pub status: u16,
    pub content_type: &'static str,
    /// The header that marks a download.
    pub disposition: Option<String>,
    pub body: Body,
}

impl FileResponse {
    /// Whether this is a plain text with that status.
    pub open spec fn is_text(self, status: u16, text: Seq<char>) -> bool {
        &&& self.status == status
        &&& self.content_type@ == "text/plain; charset=utf-8"@
        &&& self.disposition is None
        &&& match self.body {
            Body::Text(t) => t@ == text,
            _ => false,
        }
    }

    /// Whether this carries the bytes of a file, as a download of that name
    /// where one is wanted.
    pub open spec fn is_file(
        self,
        content_type: Seq<char>,
        bytes: Vec<u8>,
        download: bool,
        name: Seq<char>,
    ) -> bool {
        &&& self.status == 200
        &&& self.content_type@ == content_type
        &&& self.body == Body::Bytes(bytes)
        &&& opt_text(self.disposition) == if download && !has_control(name) {
            Some(attachment_header(name))
        } else {
            None
        }
    }
}

fn text_response(status: u16, text: String) -> (r: FileResponse)
    ensures
        r.is_text(status, text@),
{
    FileResponse {
        status,
        content_type: "text/plain; charset=utf-8",
        disposition: None,
        body: Body::Text(text),
    }
}

/// Whether a response tells of a failed compilation.
pub open spec fn tells_of(r: FileResponse, e: CompileError) -> bool {
    match e {
        CompileError::ToolMissing => r.is_text(501, "latexmk is not installed on the server."@),
        CompileError::Timeout => r.is_text(504, "LaTeX compilation aborted due to timeout."@),
        CompileError::Failed { log } => r.is_text(422, log@),
        CompileError::Io(t) => r.is_text(500, "I/O error during compilation: "@ + t@),
    }
}

/// The response that tells of a failed compilation.
pub fn compile_error_response(err: CompileError) -> (r: FileResponse)
    ensures
        tells_of(r, err),
{
    match err {
        CompileError::ToolMissing => text_response(
            501,
            "latexmk is not installed on the server.".to_owned(),
        ),
        CompileError::Timeout => text_response(
            504,
            "LaTeX compilation aborted due to timeout.".to_owned(),
        ),
        CompileError::Failed { log } => text_response(422, log),
        CompileError::Io(e) => {
            let mut t: String = "I/O error during compilation: ".to_owned();
            t.append(e.as_str());
            text_response(500, t)
        },
    }
}

/// What came of a request for a file.
#[derive(Debug)]
pub enum FileOutcome {
    /// The path leads nowhere.
    Invalid,
    Compiled(Vec<u8>),
    NotCompiled(CompileError),
    Read(Vec<u8>),
    NotRead,
}

impl FileQuery {
    /// Whether the source is to be compiled in place of read.
    pub open spec fn asks_to_compile(self) -> bool {
        self.compile_latex && is_latex_extension(lower_extension(self.path@))
    }

    pub fn compiles(&self) -> (r: bool)
        ensures
            r == self.asks_to_compile(),
    {
        self.compile_latex && is_latex(self.path.as_str())
    }
}

/// The response to a request for a file, given what came of it.
pub fn get_file(q: &FileQuery, outcome: FileOutcome) -> (r: FileResponse)
    ensures
        match outcome {
            FileOutcome::Invalid => r.is_text(400, "Invalid path: "@ + q.path@),
            FileOutcome::Compiled(pdf) => r.is_file(
                "application/pdf"@,
                pdf,
                q.force_download,
                pdf_name(q.path@),
            ),
            FileOutcome::NotCompiled(e) => tells_of(r, e),
            FileOutcome::Read(bytes) => r.is_file(
                type_of_extension(lower_extension(q.path@)),
                bytes,
                q.force_download,
                base_name(q.path@),
            ),
            FileOutcome::NotRead => r.is_text(404, "File not found: "@ + q.path@),
        },
{
    match outcome {
        FileOutcome::Invalid => {
            let mut t: String = "Invalid path: ".to_owned();
            t.append(q.path.as_str());
            text_response(400, t)
        },
        FileOutcome::Compiled(pdf) => {
            let disposition: Option<String> = if q.force_download {
                let name: String = pdf_download_name(q.path.as_str());
                set_attachment(name.as_str())
            } else {
                None
            };
            FileResponse {
                status: 200,
                content_type: "application/pdf",
                disposition,
                body: Body::Bytes(pdf),
            }
        },
        FileOutcome::NotCompiled(e) => compile_error_response(e),
        FileOutcome::Read(bytes) => {
            let disposition: Option<String> = if q.force_download {
                let name: String = basename(q.path.as_str());
                set_attachment(name.as_str())
            } else {
                None
            };
            FileResponse {
                status: 200,
                content_type: content_type_for(q.path.as_str()),
                disposition,
                body: Body::Bytes(bytes),
            }
        },
        FileOutcome::NotRead => {
            let mut t: String = "File not found: ".to_owned();
            t.append(q.path.as_str());
            text_response(404, t)
        },
    }
}

fn about(text: &str, path: &str) -> (r: ApiError)
    ensures
        r.is_internal(text@ + path@),
{
    let mut t: String = text.to_owned();
    t.append(path);
    ApiError::internal(t.as_str())
}

/// Whether a file may be created, and the status where it was.
pub fn create_file(body: &CreatePayload, exists: bool) -> (r: Result<u16, ApiError>)
    ensures
        match r {
            Ok(status) => !exists && status == 201,
            Err(e) => exists && e.is_internal("File già esistente: "@ + body.path@),
        },
{
    if exists {
        Err(about("File già esistente: ", body.path.as_str()))
    } else {
        Ok(201)
    }
}

/// Whether a file may be written, and the status where it was.
pub fn save_file(body: &SavePayload, exists: bool) -> (r: Result<u16, ApiError>)
    ensures
        match r {
            Ok(status) => exists && status == 204,
            Err(e) => !exists && e.is_internal("File not found: "@ + body.path@),
        },
{
    if !exists {
        Err(about("File not found: ", body.path.as_str()))
    } else {
        Ok(204)
    }
}

/// Whether a file may be renamed, and the status where it was.
pub fn rename_file(body: &RenamePayload, old_exists: bool, new_exists: bool) -> (r: Result<
    u16,
    ApiError,
>)
    ensures
        match r {
            Ok(status) => old_exists && !new_exists && status == 204,
            Err(e) => if !old_exists {
                e.is_internal("File non trovato: "@ + body.old_path@)
            } else {
                new_exists && e.is_internal("File già esistente: "@ + body.new_path@)
            },
        },
{
    if !old_exists {
        Err(about("File non trovato: ", body.old_path.as_str()))
    } else if new_exists {
        Err(about("File già esistente: ", body.new_path.as_str()))
    } else {
        Ok(204)
    }
}

/// Whether a file may be deleted, and the status where it was.
pub fn delete_file(q: &FileQuery, exists: bool) -> (r: Result<u16, ApiError>)
    ensures
        match r {
            Ok(status) => exists && status == 204,
            Err(e) => !exists && e.is_internal("File non trovato: "@ + q.path@),
        },
{
    if !exists {
        Err(about("File non trovato: ", q.path.as_str()))
    } else {
        Ok(204)
    }
}

/// Which directories are gone into: all but three. Files are taken, and what is
/// neither is passed over.
pub proof fn law_walked_entries(name: &str, is_dir: bool, is_file: bool, r: WalkStep)
    requires
        call_ensures(walk, (name, is_dir, is_file), r),
    ensures
        r is Enter <==> is_dir && name@ != ".git"@ && name@ != "target"@ && name@ != "node_modules"@,
        r is Take <==> !is_dir && is_file,
{
}

/// The files are listed in the order of their paths.
pub proof fn law_listed_paths(paths: Vec<String>, r: Vec<FileEntry>, i: int, j: int)
    requires
        call_ensures(list_files, (paths,), r),
        0 <= i < j < r@.len(),
    ensures
        r@.len() == paths@.len(),
        text_le(r@[i].path@, r@[j].path@),
        r@.map_values(|e: FileEntry| e.path@).to_multiset() == texts(paths@).to_multiset(),
{
    law_text_order();
    law_stable_sorted(texts(paths@), by_text());
    let v = r@.map_values(|e: FileEntry| e.path@);
    assert(v.len() == r@.len());
    assert(by_text()(v[i], v[j]));
}

/// The name under which a file is offered: the name itself, with an underscore
/// for each character that the header cannot hold. A name with a control
/// character is offered under none.
pub proof fn law_offered_names(filename: &str, r: Option<String>, i: int)
    requires
        call_ensures(set_attachment, (filename,), r),
    ensures
        r is None <==> exists|k: int|
            0 <= k < filename@.len() && is_control(#[trigger] filename@[k]),
        r matches Some(h) ==> {
            let lead = "attachment; filename=\""@;
            &&& h@.len() == lead.len() + filename@.len() + "\""@.len()
            &&& h@.take(lead.len() as int) == lead
            &&& h@.skip((lead.len() + filename@.len()) as int) == "\""@
            &&& 0 <= i < filename@.len() ==> h@[lead.len() + i] == if (filename@[i] as u32) >= 128
                || filename@[i] == '"' || filename@[i] == '\\' {
                '_'
            } else {
                filename@[i]
            }
        },
{
    if r is Some {
        let lead = "attachment; filename=\""@;
        let middle = filename@.map_values(|c: char| header_char(c));
        assert(r->Some_0@.take(lead.len() as int) =~= lead);
        assert(r->Some_0@.skip((lead.len() + filename@.len()) as int) =~= "\""@);
        if 0 <= i < filename@.len() {
            assert(r->Some_0@[lead.len() + i] == middle[i]);
        }
    }
}

/// What a file is served as, by its extension, whatever its case.
pub proof fn law_types_of_files(path: &str, r: &'static str, latex: bool)
    requires
        call_ensures(content_type_for, (path,), r),
        call_ensures(is_latex, (path,), latex),
    ensures
        ({
            let e = lower_extension(path@);
            &&& e == "png"@ ==> r@ == "image/png"@
            &&& e == "jpg"@ || e == "jpeg"@ ==> r@ == "image/jpeg"@
            &&& e == "gif"@ ==> r@ == "image/gif"@
            &&& e == "webp"@ ==> r@ == "image/webp"@
            &&& e == "avif"@ ==> r@ == "image/avif"@
            &&& e == "bmp"@ ==> r@ == "image/bmp"@
            &&& e == "ico"@ ==> r@ == "image/x-icon"@
            &&& e == "svg"@ ==> r@ == "image/svg+xml"@
            &&& e == "pdf"@ ==> r@ == "application/pdf"@
            &&& e == "tex"@ || e == "latex"@ ==> r@ == "application/x-tex"@
            &&& e == "html"@ || e == "htm"@ ==> r@ == "text/html; charset=utf-8"@
            &&& e.len() == 0 ==> r@ == "text/plain; charset=utf-8"@
            &&& latex <==> e == "tex"@ || e == "latex"@
        }),
{
    reveal_strlit("png");
    reveal_strlit("jpg");
    reveal_strlit("jpeg");
    reveal_strlit("gif");
    reveal_strlit("webp");
    reveal_strlit("avif");
    reveal_strlit("bmp");
    reveal_strlit("ico");
    reveal_strlit("svg");
    reveal_strlit("pdf");
    reveal_strlit("tex");
    reveal_strlit("latex");
    reveal_strlit("html");
    reveal_strlit("htm");
    assert("png"@.len() == 3 && "jpg"@.len() == 3 && "jpeg"@.len() == 4 && "gif"@.len() == 3
        && "webp"@.len() == 4 && "avif"@.len() == 4 && "bmp"@.len() == 3 && "ico"@.len() == 3
        && "svg"@.len() == 3 && "pdf"@.len() == 3 && "tex"@.len() == 3 && "latex"@.len() == 5
        && "html"@.len() == 4 && "htm"@.len() == 3);
    assert("png"@[1] == 'n' && "jpg"@[1] == 'p' && "gif"@[1] == 'i' && "bmp"@[1] == 'm' && "ico"@[1]
        == 'c' && "svg"@[1] == 'v' && "pdf"@[1] == 'd' && "tex"@[1] == 'e' && "htm"@[1] == 't');
    assert("jpeg"@[0] == 'j' && "webp"@[0] == 'w' && "avif"@[0] == 'a' && "html"@[0] == 'h');
}

/// Why a document could not be made, with the status that says so.
pub proof fn law_failed_documents(e: CompileError, r: FileResponse)
    requires
        call_ensures(compile_error_response, (e,), r),
    ensures
        r.content_type@ == "text/plain; charset=utf-8"@ && r.disposition is None && r.body is Text,
        e is ToolMissing ==> r.status == 501 && r.body->Text_0@
            == "latexmk is not installed on the server."@,
        e is Timeout ==> r.status == 504 && r.body->Text_0@
            == "LaTeX compilation aborted due to timeout."@,
        e matches CompileError::Failed { log } ==> r.status == 422 && r.body->Text_0@ == log@,
        e matches CompileError::Io(t) ==> r.status == 500 && r.body->Text_0@
            == "I/O error during compilation: "@ + t@,
{
}

/// What a request for a file is answered: the bytes, as what the file is, or the
/// document made from it; under a name where a download is asked for; or why
/// there is nothing.
pub proof fn law_served_files(
    q: &FileQuery,
    outcome: FileOutcome,
    r: FileResponse,
    path: &str,
    kind: &'static str,
    name: String,
    pdf: String,
    shown: &str,
    header: Option<String>,
    compiles: bool,
    latex: bool,
)
    requires
        call_ensures(get_file, (q, outcome), r),
        path@ == q.path@,
        call_ensures(content_type_for, (path,), kind),
        call_ensures(basename, (path,), name),
        call_ensures(pdf_download_name, (path,), pdf),
        shown@ == if outcome is Compiled {
            pdf@
        } else {
            name@
        },
        call_ensures(set_attachment, (shown,), header),
        call_ensures(FileQuery::compiles, (q,), compiles),
        call_ensures(is_latex, (path,), latex),
    ensures
        compiles <==> q.compile_latex && latex,
        outcome matches FileOutcome::Read(bytes) ==> r.status == 200 && r.content_type@ == kind@
            && r.body == Body::Bytes(bytes),
        outcome matches FileOutcome::Compiled(bytes) ==> r.status == 200 && r.content_type@
            == "application/pdf"@ && r.body == Body::Bytes(bytes),
        outcome is Read || outcome is Compiled ==> opt_text(r.disposition) == if q.force_download {
            opt_text(header)
        } else {
            None
        },
        outcome is Invalid ==> r.status == 400 && r.body is Text && r.body->Text_0@
            == "Invalid path: "@ + q.path@,
        outcome is NotRead ==> r.status == 404 && r.body is Text && r.body->Text_0@
            == "File not found: "@ + q.path@,
{
}

/// When a file can be made, saved, renamed and deleted.
pub proof fn law_changed_files(
    made: &CreatePayload,
    saved: &SavePayload,
    renamed: &RenamePayload,
    q: &FileQuery,
    there: bool,
    other: bool,
    r: Seq<Result<u16, ApiError>>,
)
    requires
        r.len() == 4,
        call_ensures(create_file, (made, there), r[0]),
        call_ensures(save_file, (saved, there), r[1]),
        call_ensures(rename_file, (renamed, there, other), r[2]),
        call_ensures(delete_file, (q, there), r[3]),
    ensures
        r[0] is Ok <==> !there,
        r[1] is Ok <==> there,
        r[2] is Ok <==> there && !other,
        r[3] is Ok <==> there,
        r[0] matches Ok(s) ==> s == 201,
        r[1] matches Ok(s) ==> s == 204,
        r[2] matches Ok(s) ==> s == 204,
        r[3] matches Ok(s) ==> s == 204,
        r[0] matches Err(e) ==> e.status == 500 && e.message@ == "File già esistente: "@ + made.path@,
        r[1] matches Err(e) ==> e.status == 500 && e.message@ == "File not found: "@ + saved.path@,
        r[2] matches Err(e) ==> e.status == 500 && e.message@ == if there {
            "File già esistente: "@ + renamed.new_path@
        } else {
            "File non trovato: "@ + renamed.old_path@
        },
        r[3] matches Err(e) ==> e.status == 500 && e.message@ == "File non trovato: "@ + q.path@,
{
}

} // verus!
