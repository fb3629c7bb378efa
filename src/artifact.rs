//! The derived-artifact cache: where a recipe's extracted document and
//! rendered image live, which external tool run produces them, and how the
//! outcome of a run is read.
//!
//! The cache is keyed by presence on disk: a file that exists is reused, and
//! a tool runs only for one that does not.
use vstd::prelude::*;
use crate::recipe::{Recipe, RecipeView};
use crate::text::{append_decimal, decimal};

verus! {

/// Directory of extracted documents.
pub const DOCUMENT_DIR: &'static str = "/tmp/cooking-fetch/pdfs/";

/// Directory of rendered images.
pub const IMAGE_DIR: &'static str = "/tmp/cooking-fetch/images/";

/// The reference document that the page ranges address.
pub const REFERENCE_DOCUMENT: &'static str = "assets/book.pdf";

/// The document-extraction tool.
pub const EXTRACT_TOOL: &'static str = "pdftk";

/// The image-rendering tool.
pub const RENDER_TOOL: &'static str = "pdfimages";

/// Path of the document extracted for a recipe named `name`.
pub open spec fn document_path_of(name: Seq<char>) -> Seq<char> {
    DOCUMENT_DIR@ + name + ".pdf"@
}

/// Base path that the image tool is given for a recipe named `name`.
pub open spec fn image_base_of(name: Seq<char>) -> Seq<char> {
    IMAGE_DIR@ + name
}

/// The page range argument, `start-end`.
pub open spec fn page_range_of(start: i32, end: i32) -> Seq<char> {
    decimal(start as int) + "-"@ + decimal(end as int)
}

/// Arguments of the extraction run for `r`.
pub open spec fn extract_args_of(r: RecipeView) -> Seq<Seq<char>> {
    seq![
        REFERENCE_DOCUMENT@,
        "cat"@,
        page_range_of(r.page_start, r.page_end),
        "output"@,
        document_path_of(r.name),
    ]
}

/// Arguments of the rendering run on `document` towards `base`.
pub open spec fn render_args_of(document: Seq<char>, base: Seq<char>) -> Seq<Seq<char>> {
    seq!["-png"@, "-print-filenames"@, document, base]
}

/// Views of a vector of strings.
pub open spec fn strings_view(v: Seq<String>) -> Seq<Seq<char>> {
    v.map_values(|s: String| s@)
}

/// Path of the document extracted for a recipe named `name`.
pub fn pdf_path(name: &str) -> (r: String)
    ensures
        r@ == document_path_of(name@),
{
    let mut p = String::from_str(DOCUMENT_DIR);
    p.append(name);
    p.append(".pdf");
    p
}

/// Base path that the image tool is given for a recipe named `name`.
pub fn image_base(name: &str) -> (r: String)
    ensures
        r@ == image_base_of(name@),
{
    let mut p = String::from_str(IMAGE_DIR);
    p.append(name);
    p
}

/// Arguments of the extraction run for `r`: the reference document, the
/// page range and the target path.
pub fn extract_args(r: &Recipe) -> (a: Vec<String>)
    ensures
        strings_view(a@) == extract_args_of(r@),
{
    let mut range = String::new();
    append_decimal(&mut range, r.page_start);
    range.append("-");
    append_decimal(&mut range, r.page_end);
    let mut a: Vec<String> = Vec::new();
    a.push(String::from_str(REFERENCE_DOCUMENT));
    a.push(String::from_str("cat"));
    a.push(range);
    a.push(String::from_str("output"));
    a.push(pdf_path(r.name.as_str()));
    proof {
        assert(range@ =~= page_range_of(r.page_start, r.page_end));
        assert(strings_view(a@) =~= extract_args_of(r@));
    }
    a
}

/// Arguments of the rendering run: PNG output, with the produced file names
/// printed, from `document` towards `base`.
pub fn render_args(document: &str, base: &str) -> (a: Vec<String>)
    ensures
        strings_view(a@) == render_args_of(document@, base@),
{
    let mut a: Vec<String> = Vec::new();
    a.push(String::from_str("-png"));
    a.push(String::from_str("-print-filenames"));
    a.push(String::from_str(document));
    a.push(String::from_str(base));
    proof {
        assert(strings_view(a@) =~= render_args_of(document@, base@));
    }
    a
}

/// An external tool run: the program and its arguments.
#[derive(Debug)]
pub struct ToolRun {
    pub program: String,
    pub args: Vec<String>,
}

/// What a request for an artifact needs: the cached file, or a tool run.
#[derive(Debug)]
pub enum CacheStep {
    Reuse(String),
    Run(ToolRun),
}

/// Why an artifact could not be produced.
#[derive(Debug)]
pub enum ExtractError {
    /// The tool ran and exited with a failure; its error output.
    ToolFailed(String),
    /// The tool could not be started.
    ToolUnavailable,
    /// The tool succeeded but reported no file.
    NoOutputProduced,
}

/// What a document request for `r` does: reuse the file where `present`
/// (the document path exists), else run the extraction tool.
pub fn document_step(r: &Recipe, present: bool) -> (s: CacheStep)
    ensures
        present ==> s is Reuse && s->Reuse_0@ == document_path_of(r@.name),
        !present ==> s is Run && s->Run_0.program@ == EXTRACT_TOOL@
            && strings_view(s->Run_0.args@) == extract_args_of(r@),
{
    if present {
        CacheStep::Reuse(pdf_path(r.name.as_str()))
    } else {
        CacheStep::Run(ToolRun { program: String::from_str(EXTRACT_TOOL), args: extract_args(r) })
    }
}

/// The outcome of an extraction run for `r`: the document path on success.
pub fn document_result(r: &Recipe, launched: bool, success: bool, stderr: String) -> (o: Result<
    String,
    ExtractError,
>)
    ensures
        !launched ==> o is Err && o->Err_0 is ToolUnavailable,
        launched && !success ==> o is Err && o->Err_0 is ToolFailed && o->Err_0->ToolFailed_0@
            == stderr@,
        launched && success ==> o is Ok && o->Ok_0@ == document_path_of(r@.name),
{
    if !launched {
        Err(ExtractError::ToolUnavailable)
    } else if !success {
        Err(ExtractError::ToolFailed(stderr))
    } else {
        Ok(pdf_path(r.name.as_str()))
    }
}

/// What an image request for `r` does, given the extracted `document` and
/// the names of the files in the image directory: reuse the last image made
/// for `r` (see `image_lookup`), else run the rendering tool.
pub fn image_step(r: &Recipe, document: &str, files: &Vec<String>) -> (s: CacheStep)
    ensures
        match image_lookup(r@.name, strings_view(files@)) {
            Some(f) => s is Reuse && s->Reuse_0@ == IMAGE_DIR@ + f,
            None => s is Run && s->Run_0.program@ == RENDER_TOOL@ && strings_view(s->Run_0.args@)
                == render_args_of(document@, image_base_of(r@.name)),
        },
{
    match matching_image(r.name.as_str(), files) {
        Some(p) => CacheStep::Reuse(p),
        None => {
            let base = image_base(r.name.as_str());
            CacheStep::Run(
                ToolRun { program: String::from_str(RENDER_TOOL), args: render_args(document, base.as_str()) },
            )
        },
    }
}

/// Unicode white space (the `White_Space` property), which `str::trim`
/// removes at both ends.
pub open spec fn is_blank(c: char) -> bool {
    let u = c as u32;
    (0x9 <= u <= 0xd) || u == 0x20 || u == 0x85 || u == 0xa0 || u == 0x1680 || (0x2000 <= u
        <= 0x200a) || u == 0x2028 || u == 0x2029 || u == 0x202f || u == 0x205f || u == 0x3000
}

/// `out[b..e]` is the last line of `out` once white space is trimmed from
/// both its ends: `e` follows its last non-blank character, and `b` is its
/// first non-blank character or follows the last line break before `e`
/// that comes after one.
pub open spec fn is_last_line(out: Seq<char>, b: int, e: int) -> bool {
    &&& 0 <= b < e <= out.len()
    &&& !is_blank(out[e - 1])
    &&& forall|i: int| e <= i < out.len() ==> is_blank(#[trigger] out[i])
    &&& forall|i: int| b <= i < e ==> #[trigger] out[i] != '\n'
    &&& ((forall|i: int| 0 <= i < b ==> is_blank(#[trigger] out[i])) && !is_blank(out[b])) || (0 < b
        && out[b - 1] == '\n' && exists|i: int| 0 <= i < b && !is_blank(#[trigger] out[i]))
}

/// The file that the rendering tool reported last: the last line of its
/// output trimmed of white space; `None` where the output is all white space.
pub fn last_reported_file(out: &str) -> (r: Option<String>)
    ensures
        r is None <==> forall|i: int| 0 <= i < out@.len() ==> is_blank(#[trigger] out@[i]),
        r is Some ==> exists|b: int, e: int|
            #[trigger] is_last_line(out@, b, e) && r->Some_0@ == out@.subrange(b, e),
{
    let n = out.unicode_len();
    let mut e: usize = n;
    while e > 0 && is_blank_char(out.get_char(e - 1))
        invariant
            n == out@.len(),
            e <= n,
            forall|i: int| e <= i < n ==> is_blank(#[trigger] out@[i]),
        decreases e,
    {
        e = e - 1;
    }
    if e == 0 {
        return None;
    }
    let mut first: usize = 0;
    while first < e - 1 && is_blank_char(out.get_char(first))
        invariant
            n == out@.len(),
            0 < e <= n,
            first < e,
            forall|i: int| 0 <= i < first ==> is_blank(#[trigger] out@[i]),
        decreases e - first,
    {
        first = first + 1;
    }
    let mut b: usize = e - 1;
    while b > first && out.get_char(b - 1) != '\n'
        invariant
            n == out@.len(),
            first <= b < e <= n,
            forall|i: int| b <= i < e ==> #[trigger] out@[i] != '\n',
        decreases b,
    {
        b = b - 1;
    }
    let line = String::from_str(out.substring_char(b, e));
    proof {
        if b == first {
            if first < e - 1 {
                assert(!is_blank(out@[first as int]));
            }
        } else {
            assert(!is_blank(out@[first as int]));
        }
    }
    assert(is_last_line(out@, b as int, e as int));
    Some(line)
}

fn is_blank_char(c: char) -> (r: bool)
    ensures
        r == is_blank(c),
{
    let u = c as u32;
    (0x9 <= u && u <= 0xd) || u == 0x20 || u == 0x85 || u == 0xa0 || u == 0x1680 || (0x2000 <= u
        && u <= 0x200a) || u == 0x2028 || u == 0x2029 || u == 0x202f || u == 0x205f || u == 0x3000
}

/// The outcome of a rendering run: the last file it reported on success.
pub fn image_result(launched: bool, success: bool, stdout: &str, stderr: String) -> (o: Result<
    String,
    ExtractError,
>)
    ensures
        !launched ==> o is Err && o->Err_0 is ToolUnavailable,
        launched && !success ==> o is Err && o->Err_0 is ToolFailed && o->Err_0->ToolFailed_0@
            == stderr@,
        launched && success && (forall|i: int| 0 <= i < stdout@.len() ==> is_blank(#[trigger] stdout@[i]))
            ==> o is Err && o->Err_0 is NoOutputProduced,
        launched && success && !(forall|i: int| 0 <= i < stdout@.len() ==> is_blank(#[trigger] stdout@[i]))
            ==> o is Ok && exists|b: int, e: int|
            #[trigger] is_last_line(stdout@, b, e) && o->Ok_0@ == stdout@.subrange(b, e),
{
    if !launched {
        Err(ExtractError::ToolUnavailable)
    } else if !success {
        Err(ExtractError::ToolFailed(stderr))
    } else {
        match last_reported_file(stdout) {
            Some(p) => Ok(p),
            None => Err(ExtractError::NoOutputProduced),
        }
    }
}

/// Files present after document requests for the recipes named `names`, in
/// order, starting from `files`, where each tool run succeeds.
pub open spec fn documents_after(files: Set<Seq<char>>, names: Seq<Seq<char>>) -> Set<Seq<char>>
    decreases names.len(),
{
    if names.len() == 0 {
        files
    } else {
        documents_after(files, names.drop_last()).insert(document_path_of(names.last()))
    }
}

/// How many of those requests run the extraction tool: those whose document
/// is not present when they are made (`document_step`).
pub open spec fn extraction_runs(files: Set<Seq<char>>, names: Seq<Seq<char>>) -> nat
    decreases names.len(),
{
    if names.len() == 0 {
        0
    } else {
        let before = documents_after(files, names.drop_last());
        extraction_runs(files, names.drop_last()) + if before.contains(
            document_path_of(names.last()),
        ) {
            0nat
        } else {
            1nat
        }
    }
}

/// Requesting the same recipe's document `k` times, with the cache directory
/// kept, runs the extraction tool at most once, and not at all where the
/// document is already there; after the first request the document's path
/// is present.
pub proof fn lemma_document_at_most_once(files: Set<Seq<char>>, name: Seq<char>, k: nat)
    ensures
        extraction_runs(files, Seq::new(k, |i: int| name)) <= 1,
        files.contains(document_path_of(name)) ==> extraction_runs(
            files,
            Seq::new(k, |i: int| name),
        ) == 0,
        k > 0 ==> documents_after(files, Seq::new(k, |i: int| name)).contains(
            document_path_of(name),
        ),
    decreases k,
{
    if k > 0 {
        let names = Seq::new(k, |i: int| name);
        let prev = Seq::new((k - 1) as nat, |i: int| name);
        assert(names.drop_last() =~= prev);
        lemma_document_at_most_once(files, name, (k - 1) as nat);
        assert(names.last() == name);
    }
}

/// A decimal digit.
pub open spec fn is_digit(c: char) -> bool {
    0x30 <= (c as u32) <= 0x39
}

/// `f` is a file name that the rendering tool makes from the base name
/// `name`: the name, a dash, a page number, and `.png`.
pub open spec fn is_image_of(name: Seq<char>, f: Seq<char>) -> bool {
    let k = name.len() as int;
    let n = f.len() as int;
    &&& n >= k + 6
    &&& f.subrange(0, k) == name
    &&& f[k] == '-'
    &&& forall|i: int| k + 1 <= i < n - 4 ==> is_digit(#[trigger] f[i])
    &&& f[n - 4] == '.' && f[n - 3] == 'p' && f[n - 2] == 'n' && f[n - 1] == 'g'
}

/// The last of `files` that is an image made for `name`.
pub open spec fn image_lookup(name: Seq<char>, files: Seq<Seq<char>>) -> Option<Seq<char>>
    decreases files.len(),
{
    if files.len() == 0 {
        None
    } else if is_image_of(name, files.last()) {
        Some(files.last())
    } else {
        image_lookup(name, files.drop_last())
    }
}

/// Whether `f` is an image file made for the recipe named `name`.
pub fn is_image_file(name: &str, f: &str) -> (r: bool)
    ensures
        r == is_image_of(name@, f@),
{
    let k = name.unicode_len();
    let n = f.unicode_len();
    if n < 6 || n - 6 < k {
        return false;
    }
    let mut i: usize = 0;
    while i < k
        invariant
            k == name@.len(),
            n == f@.len(),
            n >= k + 6,
            i <= k,
            forall|j: int| 0 <= j < i ==> f@[j] == name@[j],
        decreases k - i,
    {
        if f.get_char(i) != name.get_char(i) {
            assert(f@.subrange(0, k as int)[i as int] != name@[i as int]);
            return false;
        }
        i = i + 1;
    }
    assert(f@.subrange(0, k as int) =~= name@);
    if f.get_char(k) != '-' {
        return false;
    }
    let mut j: usize = k + 1;
    while j < n - 4
        invariant
            k == name@.len(),
            n == f@.len(),
            n >= k + 6,
            k + 1 <= j <= n - 4,
            forall|m: int| k + 1 <= m < j ==> is_digit(#[trigger] f@[m]),
        decreases n - 4 - j,
    {
        let u = f.get_char(j) as u32;
        if !(0x30 <= u && u <= 0x39) {
            return false;
        }
        j = j + 1;
    }
    f.get_char(n - 4) == '.' && f.get_char(n - 3) == 'p' && f.get_char(n - 2) == 'n' && f.get_char(
        n - 1,
    ) == 'g'
}

/// The path of the last of `files` (names within the image directory) that
/// is an image made for the recipe named `name`.
pub fn matching_image(name: &str, files: &Vec<String>) -> (r: Option<String>)
    ensures
        match image_lookup(name@, strings_view(files@)) {
            None => r is None,
            Some(f) => r is Some && r->Some_0@ == IMAGE_DIR@ + f,
        },
{
    let ghost sv = strings_view(files@);
    let mut i: usize = files.len();
    proof {
        assert(sv.subrange(0, i as int) =~= sv);
    }
    while i > 0
        invariant
            i <= files@.len(),
            sv == strings_view(files@),
            image_lookup(name@, sv) == image_lookup(name@, sv.subrange(0, i as int)),
        decreases i,
    {
        proof {
            let pre = sv.subrange(0, i as int);
            assert(pre.last() == files@[i - 1]@);
            assert(pre.drop_last() =~= sv.subrange(0, i - 1));
        }
        if is_image_file(name, files[i - 1].as_str()) {
            let mut p = String::from_str(IMAGE_DIR);
            p.append(files[i - 1].as_str());
            return Some(p);
        }
        i = i - 1;
    }
    None
}

/// A request for the recipe named `name`, made when the image directory
/// `files` holds no image of it, runs the rendering tool; once the file
/// `made` that the run leaves is there and nothing else is written, every
/// later request finds exactly that file, so reuses it and runs no tool.
pub proof fn lemma_image_rendered_once(name: Seq<char>, files: Seq<Seq<char>>, made: Seq<char>)
    requires
        image_lookup(name, files) is None,
        is_image_of(name, made),
    ensures
        image_lookup(name, files.push(made)) == Some(made),
{
    assert(files.push(made).last() == made);
}

} // verus!
