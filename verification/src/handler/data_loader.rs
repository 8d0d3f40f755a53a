//! Text chunking, embedding batches and routing of files to the loading
//! pipelines.
use vstd::prelude::*;

use crate::handler::image_loader::image_extension;
use crate::parser::{language_for_extension, language_of_extension, CodeLanguage};
use crate::path::{extension_of, path_extension, plain_path};
use crate::text::{
    concat, concat3, contains_seq, decimal, decimal_string, eq_ignore_ascii_case,
    eq_ignore_ascii_case_of, lemma_find_from_range, lowercase, occurs_at, seq_views, split_exec,
    split_on, string_from, string_views, find_from, is_suffix, str_ends_with,
};

verus! {

/// Characters per chunk of document text.
pub const CHUNK_SIZE: usize = 1000;

/// Chunks per embedding batch.
pub const BATCH_SIZE: usize = 10;

/// Dimensions kept of each embedding.
pub const EMBEDDING_NDIMS: usize = 512;

// ---------------------------------------------------------------------------
// Chunking
// ---------------------------------------------------------------------------

/// The pieces of one paragraph: the paragraph itself when it fits, else its
/// lines (split at `\n`).
pub open spec fn paragraph_pieces(para: Seq<char>, max: nat) -> Seq<Seq<char>> {
    if para.len() > max {
        split_on(para, seq!['\n'])
    } else {
        seq![para]
    }
}

/// The non-empty pieces, in order.
pub open spec fn non_empty(pieces: Seq<Seq<char>>) -> Seq<Seq<char>>
    decreases pieces.len(),
{
    if pieces.len() == 0 {
        seq![]
    } else {
        non_empty(pieces.drop_last()) + (if pieces.last().len() > 0 {
            seq![pieces.last()]
        } else {
            seq![]
        })
    }
}

/// The chunks of a sequence of paragraphs, in order.
pub open spec fn chunks_of_paragraphs(paras: Seq<Seq<char>>, max: nat) -> Seq<Seq<char>>
    decreases paras.len(),
{
    if paras.len() == 0 {
        seq![]
    } else {
        chunks_of_paragraphs(paras.drop_last(), max) + non_empty(
            paragraph_pieces(paras.last(), max),
        )
    }
}

/// The chunks of a text: split at paragraph breaks (`\n\n`); a paragraph
/// longer than the chunk size is split at line breaks, and a line still
/// longer than that stays one oversized chunk; empty chunks are dropped.
pub open spec fn chunks_of(text: Seq<char>, max: nat) -> Seq<Seq<char>> {
    chunks_of_paragraphs(split_on(text, seq!['\n', '\n']), max)
}

fn push_if_non_empty(out: &mut Vec<String>, piece: &Vec<char>)
    ensures
        string_views(final(out)@) == string_views(old(out)@) + (if piece@.len() > 0 {
            seq![piece@]
        } else {
            seq![]
        }),
{
    let ghost before = string_views(out@);
    if piece.len() > 0 {
        out.push(string_from(piece.as_slice()));
        proof {
            assert(string_views(out@) =~= before + seq![piece@]);
        }
    } else {
        proof {
            assert(before + Seq::<Seq<char>>::empty() =~= before);
        }
    }
}

/// Splits text into chunks for embedding: at paragraph breaks, and at line
/// breaks within a paragraph longer than `chunk_size` characters; empty
/// chunks are dropped.
pub fn chunk_text(text: &str, chunk_size: usize) -> (r: Vec<String>)
    ensures
        string_views(r@) == chunks_of(text@, chunk_size as nat),
{
    let cs = crate::text::to_chars(text);
    let para_sep: Vec<char> = vec!['\n', '\n'];
    let line_sep: Vec<char> = vec!['\n'];
    proof {
        assert(para_sep@ =~= seq!['\n', '\n']);
        assert(line_sep@ =~= seq!['\n']);
    }
    let paras = split_exec(cs.as_slice(), para_sep.as_slice());
    let ghost ps = seq_views(paras@);
    let mut out: Vec<String> = Vec::new();
    let mut i: usize = 0;
    proof {
        assert(string_views(out@) =~= Seq::<Seq<char>>::empty());
    }
    while i < paras.len()
        invariant
            line_sep@ == seq!['\n'],
            ps == seq_views(paras@),
            ps == split_on(text@, seq!['\n', '\n']),
            i <= paras@.len(),
            string_views(out@) == chunks_of_paragraphs(ps.take(i as int), chunk_size as nat),
        decreases paras@.len() - i,
    {
        let ghost before = string_views(out@);
        let para = &paras[i];
        proof {
            assert(ps[i as int] == para@);
            assert(ps.take(i + 1).drop_last() =~= ps.take(i as int));
            assert(ps.take(i + 1).last() == para@);
        }
        if para.len() > chunk_size {
            let lines = split_exec(para.as_slice(), line_sep.as_slice());
            let ghost ls = seq_views(lines@);
            let mut j: usize = 0;
            proof {
                assert(ls.take(0) =~= Seq::<Seq<char>>::empty());
                assert(before + non_empty(ls.take(0)) =~= before);
            }
            while j < lines.len()
                invariant
                    ls == seq_views(lines@),
                    j <= lines@.len(),
                    string_views(out@) == before + non_empty(ls.take(j as int)),
                decreases lines@.len() - j,
            {
                proof {
                    assert(ls[j as int] == lines@[j as int]@);
                    assert(ls.take(j + 1).drop_last() =~= ls.take(j as int));
                    assert(ls.take(j + 1).last() == ls[j as int]);
                }
                push_if_non_empty(&mut out, &lines[j]);
                j = j + 1;
                proof {
                    assert(string_views(out@) =~= before + non_empty(ls.take(j as int)));
                }
            }
            proof {
                assert(ls.take(lines@.len() as int) =~= ls);
            }
        } else {
            push_if_non_empty(&mut out, para);
            proof {
                let one = seq![para@];
                assert(one.drop_last() =~= Seq::<Seq<char>>::empty());
                assert(non_empty(one.drop_last()) =~= Seq::<Seq<char>>::empty());
                assert(non_empty(one) =~= (if para@.len() > 0 {
                    seq![para@]
                } else {
                    seq![]
                }));
            }
        }
        i = i + 1;
    }
    proof {
        assert(ps.take(paras@.len() as int) =~= ps);
    }
    out
}

// ---------------------------------------------------------------------------
// Laws of chunking
// ---------------------------------------------------------------------------

/// A piece of a split holds no separator.
pub proof fn lemma_split_pieces_free(s: Seq<char>, sep: Seq<char>)
    requires
        sep.len() > 0,
    ensures
        forall|k: int| 0 <= k < split_on(s, sep).len() ==> !contains_seq(#[trigger] split_on(s, sep)[k], sep),
    decreases s.len(),
{
    let i = find_from(s, sep, 0);
    lemma_find_from_range(s, sep, 0);
    if i < 0 {
        assert(split_on(s, sep) == seq![s]);
        assert forall|k: int| 0 <= k < split_on(s, sep).len() implies !contains_seq(#[trigger] split_on(s, sep)[k], sep) by {
            assert forall|j: int| !occurs_at(s, sep, j) by {
                if j >= 0 {
                }
            }
        }
    } else {
        let head = s.subrange(0, i);
        let rest = s.subrange(i + sep.len(), s.len() as int);
        lemma_split_pieces_free(rest, sep);
        assert(split_on(s, sep) == seq![head] + split_on(rest, sep));
        assert forall|j: int| !occurs_at(head, sep, j) by {
            if occurs_at(head, sep, j) {
                assert(s.subrange(j, j + sep.len()) =~= head.subrange(j, j + sep.len()));
                assert(occurs_at(s, sep, j));
            }
        }
        assert forall|k: int| 0 <= k < split_on(s, sep).len() implies !contains_seq(#[trigger] split_on(s, sep)[k], sep) by {
            if k > 0 {
                assert(split_on(s, sep)[k] == split_on(rest, sep)[k - 1]);
            }
        }
    }
}

proof fn lemma_non_empty_members(pieces: Seq<Seq<char>>)
    ensures
        forall|k: int| 0 <= k < non_empty(pieces).len() ==> (#[trigger] non_empty(pieces)[k]).len() > 0
            && exists|j: int| 0 <= j < pieces.len() && pieces[j] == non_empty(pieces)[k],
    decreases pieces.len(),
{
    if pieces.len() > 0 {
        lemma_non_empty_members(pieces.drop_last());
        let prev = non_empty(pieces.drop_last());
        assert forall|k: int| 0 <= k < non_empty(pieces).len() implies (#[trigger] non_empty(pieces)[k]).len() > 0
            && exists|j: int| 0 <= j < pieces.len() && pieces[j] == non_empty(pieces)[k] by {
            if k < prev.len() {
                assert(non_empty(pieces)[k] == prev[k]);
                let j = choose|j: int| 0 <= j < pieces.drop_last().len() && pieces.drop_last()[j] == prev[k];
                assert(pieces[j] == prev[k]);
            } else {
                assert(non_empty(pieces)[k] == pieces.last());
                assert(pieces[pieces.len() - 1] == pieces.last());
            }
        }
    }
}

/// The shape of every chunk: not empty, no paragraph break inside, and no
/// longer than the chunk size unless it is a single line.
pub open spec fn chunk_well_formed(c: Seq<char>, max: nat) -> bool {
    &&& c.len() > 0
    &&& !contains_seq(c, seq!['\n', '\n'])
    &&& (c.len() <= max || !contains_seq(c, seq!['\n']))
}

proof fn lemma_no_newline_no_break(c: Seq<char>)
    requires
        !contains_seq(c, seq!['\n']),
    ensures
        !contains_seq(c, seq!['\n', '\n']),
{
    assert forall|j: int| !occurs_at(c, seq!['\n', '\n'], j) by {
        if occurs_at(c, seq!['\n', '\n'], j) {
            assert(c.subrange(j, j + 2)[0] == '\n');
            assert(c.subrange(j, j + 1) =~= seq!['\n']);
            assert(occurs_at(c, seq!['\n'], j));
        }
    }
}

proof fn lemma_paragraph_chunks(para: Seq<char>, max: nat)
    requires
        !contains_seq(para, seq!['\n', '\n']),
    ensures
        forall|k: int|
            0 <= k < non_empty(paragraph_pieces(para, max)).len() ==> chunk_well_formed(
                #[trigger] non_empty(paragraph_pieces(para, max))[k],
                max,
            ),
{
    let pieces = paragraph_pieces(para, max);
    lemma_non_empty_members(pieces);
    if para.len() > max {
        lemma_split_pieces_free(para, seq!['\n']);
        assert forall|k: int| 0 <= k < non_empty(pieces).len() implies chunk_well_formed(
            #[trigger] non_empty(pieces)[k],
            max,
        ) by {
            let j = choose|j: int| 0 <= j < pieces.len() && pieces[j] == non_empty(pieces)[k];
            lemma_no_newline_no_break(pieces[j]);
        }
    } else {
        assert forall|k: int| 0 <= k < non_empty(pieces).len() implies chunk_well_formed(
            #[trigger] non_empty(pieces)[k],
            max,
        ) by {
            let j = choose|j: int| 0 <= j < pieces.len() && pieces[j] == non_empty(pieces)[k];
            assert(pieces[j] == para);
        }
    }
}

proof fn lemma_chunks_of_paragraphs(paras: Seq<Seq<char>>, max: nat)
    requires
        forall|k: int| 0 <= k < paras.len() ==> !contains_seq(#[trigger] paras[k], seq!['\n', '\n']),
    ensures
        forall|k: int|
            0 <= k < chunks_of_paragraphs(paras, max).len() ==> chunk_well_formed(
                #[trigger] chunks_of_paragraphs(paras, max)[k],
                max,
            ),
    decreases paras.len(),
{
    if paras.len() > 0 {
        let prev = chunks_of_paragraphs(paras.drop_last(), max);
        let last = non_empty(paragraph_pieces(paras.last(), max));
        assert forall|k: int| 0 <= k < paras.drop_last().len() implies !contains_seq(
            #[trigger] paras.drop_last()[k],
            seq!['\n', '\n'],
        ) by {
            assert(paras.drop_last()[k] == paras[k]);
        }
        lemma_chunks_of_paragraphs(paras.drop_last(), max);
        assert(paras.last() == paras[paras.len() - 1]);
        lemma_paragraph_chunks(paras.last(), max);
        assert forall|k: int| 0 <= k < chunks_of_paragraphs(paras, max).len() implies chunk_well_formed(
            #[trigger] chunks_of_paragraphs(paras, max)[k],
            max,
        ) by {
            if k < prev.len() {
                assert(chunks_of_paragraphs(paras, max)[k] == prev[k]);
            } else {
                assert(chunks_of_paragraphs(paras, max)[k] == last[k - prev.len()]);
            }
        }
    }
}

/// Law of chunking: every chunk is non-empty, holds no paragraph break, and
/// is no longer than the chunk size unless it is a single (oversized) line.
pub proof fn lemma_chunks_well_formed(text: Seq<char>, max: nat)
    ensures
        forall|k: int|
            0 <= k < chunks_of(text, max).len() ==> chunk_well_formed(
                #[trigger] chunks_of(text, max)[k],
                max,
            ),
{
    lemma_split_pieces_free(text, seq!['\n', '\n']);
    lemma_chunks_of_paragraphs(split_on(text, seq!['\n', '\n']), max);
}

/// Law of chunking: a non-empty text without paragraph breaks that fits the
/// chunk size is one chunk, itself.
pub proof fn lemma_short_text_one_chunk(text: Seq<char>, max: nat)
    requires
        0 < text.len() <= max,
        !contains_seq(text, seq!['\n', '\n']),
    ensures
        chunks_of(text, max) == seq![text],
{
    assert forall|j: int| 0 <= j implies !occurs_at(text, seq!['\n', '\n'], j) by {}
    crate::text::lemma_find_from_none(text, seq!['\n', '\n'], 0);
    let paras = split_on(text, seq!['\n', '\n']);
    assert(paras == seq![text]);
    assert(paras.drop_last() =~= Seq::<Seq<char>>::empty());
    let pieces = paragraph_pieces(text, max);
    assert(pieces == seq![text]);
    assert(pieces.drop_last() =~= Seq::<Seq<char>>::empty());
    let empty = Seq::<Seq<char>>::empty();
    assert(non_empty(empty) == empty);
    assert(non_empty(pieces) == non_empty(pieces.drop_last()) + seq![text]);
    assert(non_empty(pieces) =~= seq![text]);
    assert(chunks_of_paragraphs(empty, max) == empty);
    assert(chunks_of_paragraphs(paras, max) == chunks_of_paragraphs(paras.drop_last(), max)
        + non_empty(paragraph_pieces(paras.last(), max)));
    assert(chunks_of_paragraphs(paras, max) =~= seq![text]);
}

// ---------------------------------------------------------------------------
// Document routing and assembly
// ---------------------------------------------------------------------------

/// Instructions sent with each rendered PDF page to the vision model.
pub const PDF_VISION_PROMPT: &'static str = "Extract all text from this page image. Include headings, paragraphs, code snippets, table contents, figure captions, and any other visible text. Preserve the reading order and structure. Output only the extracted text.";

/// Whether an extension is `pdf` in any ASCII case.
pub fn pdf_extension(ext: &str) -> (r: bool)
    ensures
        r == eq_ignore_ascii_case_of(ext@, "pdf"@),
{
    eq_ignore_ascii_case(ext, "pdf")
}

/// Whether a file is a PDF, by its extension in any ASCII case.
///
/// A path without a dot is no PDF; otherwise the answer is the one for the
/// extension that the platform reads off the path.
pub fn is_pdf(file_path: &str) -> (r: bool)
    ensures
        plain_path(file_path@) ==> r == match extension_of(file_path@) {
            Some(e) => eq_ignore_ascii_case_of(e, "pdf"@),
            None => false,
        },
        !file_path@.contains('.') ==> !r,
        r ==> exists|e: Seq<char>|
            contains_seq(file_path@, seq!['.'] + e) && #[trigger] eq_ignore_ascii_case_of(e, "pdf"@),
{
    match path_extension(file_path) {
        Some(ext) => pdf_extension(ext.as_str()),
        None => false,
    }
}

/// The pipeline that loads a file.
#[derive(Debug, Clone, Copy, PartialEq, Eq, Structural)]
pub enum FileRoute {
    /// Source code in a language: parsed into entities and a graph.
    Code(CodeLanguage),
    /// An image: OCR and a vision description.
    Image,
    /// Any other document: text extraction.
    Document,
}

/// The route of a file with the given extension: code languages first, then
/// images, and documents for everything else.
pub open spec fn route_of_extension(ext: Option<Seq<char>>) -> FileRoute {
    match ext {
        Some(e) => match language_of_extension(lowercase(e)) {
            Some(l) => FileRoute::Code(l),
            None => if crate::handler::image_loader::is_image_extension(lowercase(e)) {
                FileRoute::Image
            } else {
                FileRoute::Document
            },
        },
        None => FileRoute::Document,
    }
}

/// The route of a file with the given extension.
pub fn route_for_extension(ext: Option<&str>) -> (r: FileRoute)
    ensures
        r == route_of_extension(match ext {
            Some(e) => Some(e@),
            None => None,
        }),
{
    match ext {
        Some(e) => match language_for_extension(e) {
            Some(l) => FileRoute::Code(l),
            None => if image_extension(e) {
                FileRoute::Image
            } else {
                FileRoute::Document
            },
        },
        None => FileRoute::Document,
    }
}

/// The route of a file from what the two detectors found: the code pipeline
/// of its language when it has one, else the image pipeline when it is an
/// image, else the document pipeline.
pub open spec fn route_from_of(lang: Option<CodeLanguage>, is_image: bool) -> FileRoute {
    match lang {
        Some(l) => FileRoute::Code(l),
        None => if is_image {
            FileRoute::Image
        } else {
            FileRoute::Document
        },
    }
}

/// The route of a file from its detected language and whether it is an
/// image.
pub fn route_from(lang: Option<CodeLanguage>, is_image: bool) -> (r: FileRoute)
    ensures
        r == route_from_of(lang, is_image),
{
    match lang {
        Some(l) => FileRoute::Code(l),
        None => if is_image {
            FileRoute::Image
        } else {
            FileRoute::Document
        },
    }
}

/// The pipeline that loads a file: its language is detected, then whether
/// it is an image, and the route follows from the two. On a plain path that
/// is the route of its extension; a path without a dot is a document.
pub fn route_file(file_path: &str) -> (r: FileRoute)
    ensures
        plain_path(file_path@) ==> r == route_of_extension(extension_of(file_path@)),
        !file_path@.contains('.') ==> r == FileRoute::Document,
        r != FileRoute::Document ==> exists|e: Seq<char>|
            contains_seq(file_path@, seq!['.'] + e) && r == #[trigger] route_of_extension(Some(e)),
{
    let lang = crate::parser::detect_language(file_path);
    let image = crate::handler::image_loader::detect_image(file_path);
    let r = route_from(lang, image);
    proof {
        if r is Image {
            let e = choose|e: Seq<char>|
                contains_seq(file_path@, seq!['.'] + e) && #[trigger] crate::handler::image_loader::is_image_extension(lowercase(e));
            lemma_code_and_image_disjoint(lowercase(e));
            assert(route_of_extension(Some(e)) == FileRoute::Image);
        }
        if r matches FileRoute::Code(l) {
            let e = choose|e: Seq<char>|
                contains_seq(file_path@, seq!['.'] + e) && lang == language_of_extension(#[trigger] lowercase(e));
            assert(route_of_extension(Some(e)) == r);
        }
    }
    r
}

/// No extension names both a code language and an image format.
pub proof fn lemma_code_and_image_disjoint(e: Seq<char>)
    ensures
        !(language_of_extension(e) is Some && crate::handler::image_loader::is_image_extension(e)),
{
    reveal_strlit("rs");
    reveal_strlit("py");
    reveal_strlit("js");
    reveal_strlit("mjs");
    reveal_strlit("cjs");
    reveal_strlit("jsx");
    reveal_strlit("ts");
    reveal_strlit("tsx");
    reveal_strlit("java");
    reveal_strlit("go");
    reveal_strlit("c");
    reveal_strlit("h");
    reveal_strlit("cpp");
    reveal_strlit("cc");
    reveal_strlit("cxx");
    reveal_strlit("hpp");
    reveal_strlit("hxx");
    reveal_strlit("png");
    reveal_strlit("jpg");
    reveal_strlit("jpeg");
    reveal_strlit("gif");
    reveal_strlit("webp");
    reveal_strlit("tiff");
    reveal_strlit("tif");
    reveal_strlit("bmp");
    if e == "png"@ {
        assert(e.len() == 3 && e[0] == 'p' && e[1] == 'n' && e[2] == 'g');
    }
    if e == "jpg"@ {
        assert(e.len() == 3 && e[0] == 'j' && e[1] == 'p' && e[2] == 'g');
    }
    if e == "jpeg"@ {
        assert(e.len() == 4 && e[0] == 'j' && e[1] == 'p' && e[2] == 'e' && e[3] == 'g');
    }
    if e == "gif"@ {
        assert(e.len() == 3 && e[0] == 'g' && e[1] == 'i' && e[2] == 'f');
    }
    if e == "webp"@ {
        assert(e.len() == 4 && e[0] == 'w' && e[1] == 'e' && e[2] == 'b' && e[3] == 'p');
    }
    if e == "tiff"@ {
        assert(e.len() == 4 && e[0] == 't' && e[1] == 'i' && e[2] == 'f' && e[3] == 'f');
    }
    if e == "tif"@ {
        assert(e.len() == 3 && e[0] == 't' && e[1] == 'i' && e[2] == 'f');
    }
    if e == "bmp"@ {
        assert(e.len() == 3 && e[0] == 'b' && e[1] == 'm' && e[2] == 'p');
    }
}

/// Law of routing: a plain path goes to exactly one pipeline, the code
/// pipeline of its language when the language detection gives one, else
/// the image pipeline when it is an image, else the document pipeline; so no
/// plain path is taken for both code and an image.
pub proof fn lemma_routing_disjoint(path: Seq<char>)
    requires
        plain_path(path),
    ensures
        match extension_of(path) {
            Some(e) => !(language_of_extension(lowercase(e)) is Some
                && crate::handler::image_loader::is_image_extension(lowercase(e))),
            None => true,
        },
        route_of_extension(extension_of(path)) == match extension_of(path) {
            Some(e) => match language_of_extension(lowercase(e)) {
                Some(l) => FileRoute::Code(l),
                None => if crate::handler::image_loader::is_image_extension(lowercase(e)) {
                    FileRoute::Image
                } else {
                    FileRoute::Document
                },
            },
            None => FileRoute::Document,
        },
{
    match extension_of(path) {
        Some(e) => lemma_code_and_image_disjoint(lowercase(e)),
        None => {},
    }
}

/// The extracted text of a PDF followed by the text the vision model read
/// off its pages, when there is any.
pub open spec fn with_vision_text_of(text: Seq<char>, vision: Seq<char>) -> Seq<char> {
    if vision.len() > 0 {
        text + "\n\n[Vision OCR]\n"@ + vision
    } else {
        text
    }
}

/// Appends the vision OCR text of a PDF to its extracted text.
pub fn append_vision_text(text: &mut String, vision: &str)
    ensures
        final(text)@ == with_vision_text_of(old(text)@, vision@),
{
    if vision.unicode_len() > 0 {
        text.append("\n\n[Vision OCR]\n");
        text.append(vision);
    }
}

/// What loading a file does, given whether a reload is forced and whether
/// the knowledge base already holds the file.
#[derive(Debug, Clone, Copy, PartialEq, Eq, Structural)]
pub enum LoadAction {
    /// The file is already loaded and no reload is forced: nothing is done.
    Skip,
    /// The file is loaded.
    Load,
    /// What the knowledge base holds of the file is deleted, then the file
    /// is loaded.
    Reload,
}

/// What loading a file does: a forced reload deletes what is held of the
/// file and loads it again; otherwise a file already held is skipped and
/// any other is loaded.
pub open spec fn load_action_of(force: bool, already_loaded: bool) -> LoadAction {
    if force {
        LoadAction::Reload
    } else if already_loaded {
        LoadAction::Skip
    } else {
        LoadAction::Load
    }
}

/// What loading a file does.
pub fn load_action(force: bool, already_loaded: bool) -> (r: LoadAction)
    ensures
        r == load_action_of(force, already_loaded),
{
    if force {
        LoadAction::Reload
    } else if already_loaded {
        LoadAction::Skip
    } else {
        LoadAction::Load
    }
}

/// The text of one page (numbered from 1) under its heading; nothing for an
/// empty description.
pub open spec fn page_text_of(page: nat, description: Seq<char>) -> Seq<char> {
    if description.len() > 0 {
        "[Page "@ + decimal(page) + "]\n"@ + description + "\n\n"@
    } else {
        seq![]
    }
}

/// Appends the vision text of page `page` (numbered from 1) to the text of
/// all pages.
pub fn append_page_text(all: &mut String, page: usize, description: &str)
    ensures
        final(all)@ == old(all)@ + page_text_of(page as nat, description@),
{
    if description.unicode_len() > 0 {
        let n = decimal_string(page);
        all.append("[Page ");
        all.append(n.as_str());
        all.append("]\n");
        all.append(description);
        all.append("\n\n");
    } else {
        proof {
            assert(old(all)@ + Seq::<char>::empty() =~= old(all)@);
        }
    }
}

// ---------------------------------------------------------------------------
// Page images of a PDF
// ---------------------------------------------------------------------------

/// Text order: character by character, by code point, a prefix first.
pub open spec fn text_le(a: Seq<char>, b: Seq<char>) -> bool
    decreases a.len(),
{
    if a.len() == 0 {
        true
    } else if b.len() == 0 {
        false
    } else if a[0] != b[0] {
        (a[0] as int) < (b[0] as int)
    } else {
        text_le(a.drop_first(), b.drop_first())
    }
}

proof fn lemma_text_le_total(a: Seq<char>, b: Seq<char>)
    ensures
        text_le(a, b) || text_le(b, a),
    decreases a.len(),
{
    if a.len() > 0 && b.len() > 0 && a[0] == b[0] {
        lemma_text_le_total(a.drop_first(), b.drop_first());
    }
}

proof fn lemma_text_le_trans(a: Seq<char>, b: Seq<char>, c: Seq<char>)
    requires
        text_le(a, b),
        text_le(b, c),
    ensures
        text_le(a, c),
    decreases a.len(),
{
    if a.len() > 0 && b.len() > 0 && c.len() > 0 && a[0] == b[0] && b[0] == c[0] {
        lemma_text_le_trans(a.drop_first(), b.drop_first(), c.drop_first());
    }
}

/// Whether one text comes at or before another in text order.
pub fn text_le_exec(a: &str, b: &str) -> (r: bool)
    ensures
        r == text_le(a@, b@),
{
    let x = crate::text::to_chars(a);
    let y = crate::text::to_chars(b);
    let mut i: usize = 0;
    proof {
        assert(x@.skip(0) =~= x@);
        assert(y@.skip(0) =~= y@);
    }
    while i < x.len() && i < y.len() && x[i] == y[i]
        invariant
            i <= x@.len(),
            i <= y@.len(),
            text_le(x@, y@) == text_le(x@.skip(i as int), y@.skip(i as int)),
        decreases x@.len() - i,
    {
        proof {
            assert(x@.skip(i as int).drop_first() =~= x@.skip(i + 1));
            assert(y@.skip(i as int).drop_first() =~= y@.skip(i + 1));
        }
        i = i + 1;
    }
    if i == x.len() {
        proof {
            assert(x@.skip(i as int) =~= Seq::<char>::empty());
        }
        true
    } else if i == y.len() {
        proof {
            assert(y@.skip(i as int) =~= Seq::<char>::empty());
        }
        false
    } else {
        proof {
            assert(x@.skip(i as int)[0] == x@[i as int]);
            assert(y@.skip(i as int)[0] == y@[i as int]);
        }
        x[i] < y[i]
    }
}

/// A page image that `pdftoppm -png` writes: a file name ending in `.png`
/// with something before it.
pub open spec fn is_page_image(name: Seq<char>) -> bool {
    is_suffix(".png"@, name) && name.len() > 4
}

/// The page images among file names, in the order given.
pub open spec fn page_images_of(names: Seq<Seq<char>>) -> Seq<Seq<char>>
    decreases names.len(),
{
    if names.len() == 0 {
        seq![]
    } else {
        page_images_of(names.drop_last()) + if is_page_image(names.last()) {
            seq![names.last()]
        } else {
            seq![]
        }
    }
}

/// Texts in text order.
pub open spec fn texts_sorted(v: Seq<Seq<char>>) -> bool {
    forall|i: int, j: int| 0 <= i < j < v.len() ==> text_le(#[trigger] v[i], #[trigger] v[j])
}

/// The page images among the file names of a directory, in text order
/// (the order of the pages, as `pdftoppm` numbers them with equal widths).
pub fn page_image_names(names: &Vec<String>) -> (r: Vec<String>)
    ensures
        texts_sorted(string_views(r@)),
        string_views(r@).to_multiset() == page_images_of(string_views(names@)).to_multiset(),
{
    let ghost nv = string_views(names@);
    let mut out: Vec<String> = Vec::new();
    let mut i: usize = 0;
    proof {
        assert(string_views(out@) =~= Seq::<Seq<char>>::empty());
        assert(nv.take(0) =~= Seq::<Seq<char>>::empty());
    }
    while i < names.len()
        invariant
            nv == string_views(names@),
            i <= names@.len(),
            texts_sorted(string_views(out@)),
            string_views(out@).to_multiset() == page_images_of(nv.take(i as int)).to_multiset(),
        decreases names@.len() - i,
    {
        let x = &names[i];
        proof {
            assert(nv.take(i + 1).drop_last() =~= nv.take(i as int));
            assert(nv.take(i + 1).last() == x@);
        }
        if str_ends_with(x.as_str(), ".png") && x.as_str().unicode_len() > 4 {
            let ghost ov = string_views(out@);
            let mut k: usize = 0;
            while k < out.len() && text_le_exec(out[k].as_str(), x.as_str())
                invariant
                    ov == string_views(out@),
                    k <= out@.len(),
                    forall|q: int| 0 <= q < k ==> text_le(#[trigger] ov[q], x@),
                decreases out@.len() - k,
            {
                k = k + 1;
            }
            proof {
                if k < out@.len() {
                    lemma_text_le_total(ov[k as int], x@);
                }
            }
            out.insert(k, x.clone());
            proof {
                let nvw = string_views(out@);
                assert(nvw =~= ov.insert(k as int, x@));
                assert forall|a: int, b: int| 0 <= a < b < nvw.len() implies text_le(
                    #[trigger] nvw[a],
                    #[trigger] nvw[b],
                ) by {
                    if b < k {
                        assert(nvw[a] == ov[a] && nvw[b] == ov[b]);
                    } else if b == k {
                        assert(nvw[a] == ov[a]);
                    } else if a == k {
                        assert(nvw[b] == ov[b - 1]);
                        if b - 1 > k {
                            assert(text_le(ov[k as int], ov[b - 1]));
                            lemma_text_le_trans(x@, ov[k as int], ov[b - 1]);
                        }
                    } else if a < k {
                        assert(nvw[a] == ov[a] && nvw[b] == ov[b - 1]);
                    } else {
                        assert(nvw[a] == ov[a - 1] && nvw[b] == ov[b - 1]);
                    }
                }
                let prev = page_images_of(nv.take(i as int));
                assert(page_images_of(nv.take(i + 1)) == prev.push(x@));
                vstd::seq_lib::to_multiset_insert(ov, k as int, x@);
                vstd::seq_lib::to_multiset_build(prev, x@);
            }
        } else {
            proof {
                assert(page_images_of(nv.take(i + 1)) =~= page_images_of(nv.take(i as int)));
            }
        }
        i = i + 1;
    }
    proof {
        assert(nv.take(names@.len() as int) =~= nv);
    }
    out
}

// ---------------------------------------------------------------------------
// Batches
// ---------------------------------------------------------------------------

/// Number of batches of `size` items that hold `n` items.
pub fn batch_count(n: usize, size: usize) -> (r: usize)
    requires
        size > 0,
    ensures
        r == (n + size - 1) / (size as int),
{
    if n == 0 {
        proof {
            assert((size - 1) / (size as int) == 0) by (nonlinear_arith)
                requires
                    size > 0,
            ;
        }
        0
    } else {
        proof {
            vstd::arithmetic::div_mod::lemma_div_plus_one((n - 1) as int, size as int);
        }
        (n - 1) / size + 1
    }
}

/// Consecutive batches of at most `size` items, in order.
pub open spec fn batches_of(items: Seq<Seq<char>>, size: nat) -> Seq<Seq<Seq<char>>>
    decreases items.len(),
{
    if items.len() == 0 || size == 0 {
        seq![]
    } else if items.len() <= size {
        seq![items]
    } else {
        seq![items.take(size as int)] + batches_of(items.skip(size as int), size)
    }
}

/// Batches of string views.
pub open spec fn batch_views(v: Seq<Vec<String>>) -> Seq<Seq<Seq<char>>> {
    v.map_values(|b: Vec<String>| string_views(b@))
}

/// Splits items into consecutive batches of at most `size` items.
pub fn split_batches(items: &Vec<String>, size: usize) -> (r: Vec<Vec<String>>)
    requires
        size > 0,
    ensures
        batch_views(r@) == batches_of(string_views(items@), size as nat),
{
    let ghost all = string_views(items@);
    let mut out: Vec<Vec<String>> = Vec::new();
    let mut start: usize = 0;
    proof {
        assert(all.skip(0) =~= all);
        assert(batch_views(out@) + batches_of(all.skip(0), size as nat) =~= batches_of(all, size as nat));
    }
    while start < items.len()
        invariant
            size > 0,
            all == string_views(items@),
            start <= items@.len(),
            batch_views(out@) + batches_of(all.skip(start as int), size as nat) == batches_of(all, size as nat),
        decreases items@.len() - start,
    {
        let rest_len = items.len() - start;
        let end = if rest_len <= size { items.len() } else { start + size };
        let mut batch: Vec<String> = Vec::new();
        let mut k = start;
        while k < end
            invariant
                start <= k <= end <= items@.len(),
                all == string_views(items@),
                string_views(batch@) == all.subrange(start as int, k as int),
            decreases end - k,
        {
            let ghost bb = string_views(batch@);
            batch.push(items[k].clone());
            k = k + 1;
            proof {
                assert(all[k - 1] == items@[k - 1]@);
                assert(string_views(batch@) =~= bb.push(all[k - 1]));
                assert(all.subrange(start as int, k as int) =~= all.subrange(start as int, k - 1).push(all[k - 1]));
            }
        }
        let ghost before = batch_views(out@);
        let ghost rest = all.skip(start as int);
        out.push(batch);
        proof {
            assert(batch_views(out@) =~= before.push(all.subrange(start as int, end as int)));
            if rest_len <= size {
                assert(rest =~= all.subrange(start as int, end as int));
                assert(all.skip(end as int) =~= Seq::<Seq<char>>::empty());
                assert(batches_of(rest, size as nat) == seq![rest]);
            } else {
                assert(rest.take(size as int) =~= all.subrange(start as int, end as int));
                assert(rest.skip(size as int) =~= all.skip(end as int));
            }
            assert(batch_views(out@) + batches_of(all.skip(end as int), size as nat) =~= before
                + batches_of(rest, size as nat));
        }
        start = end;
    }
    proof {
        assert(all.skip(start as int) =~= Seq::<Seq<char>>::empty());
        assert(batch_views(out@) + Seq::<Seq<Seq<char>>>::empty() =~= batch_views(out@));
    }
    out
}

/// Law of batching: the number of batches is the one `batch_count` gives.
pub proof fn lemma_batch_count_matches(items: Seq<Seq<char>>, size: nat)
    requires
        size > 0,
    ensures
        batches_of(items, size).len() == (items.len() + size - 1) / (size as int),
    decreases items.len(),
{
    let n = items.len() as int;
    let z = size as int;
    if n == 0 {
        assert((z - 1) / z == 0) by (nonlinear_arith)
            requires
                z > 0,
        ;
    } else if n <= z {
        assert((n + z - 1) / z == 1) by (nonlinear_arith)
            requires
                z > 0,
                0 < n <= z,
        ;
    } else {
        lemma_batch_count_matches(items.skip(z), size);
        assert(items.skip(z).len() == n - z);
        assert(n - z + z - 1 == n - 1);
        vstd::arithmetic::div_mod::lemma_div_plus_one(n - 1, z);
        assert(z + (n - 1) == n + z - 1);
    }
}

/// The batches concatenated in order.
pub open spec fn concat_batches(bs: Seq<Seq<Seq<char>>>) -> Seq<Seq<char>>
    decreases bs.len(),
{
    if bs.len() == 0 {
        seq![]
    } else {
        bs[0] + concat_batches(bs.drop_first())
    }
}

/// Law of batching: the batches, concatenated, are the items, and each
/// batch holds between one and `size` items.
pub proof fn lemma_batches_partition(items: Seq<Seq<char>>, size: nat)
    requires
        size > 0,
    ensures
        concat_batches(batches_of(items, size)) == items,
        forall|k: int|
            0 <= k < batches_of(items, size).len() ==> 0 < (#[trigger] batches_of(items, size)[k]).len() <= size,
    decreases items.len(),
{
    let bs = batches_of(items, size);
    if items.len() == 0 {
        assert(bs =~= Seq::<Seq<Seq<char>>>::empty());
        assert(items =~= Seq::<Seq<char>>::empty());
    } else if items.len() <= size {
        assert(bs == seq![items]);
        assert(bs.drop_first() =~= Seq::<Seq<Seq<char>>>::empty());
        assert(concat_batches(bs.drop_first()) == Seq::<Seq<char>>::empty());
        assert(concat_batches(bs) == bs[0] + concat_batches(bs.drop_first()));
        assert(items + Seq::<Seq<char>>::empty() =~= items);
    } else {
        let rest = items.skip(size as int);
        lemma_batches_partition(rest, size);
        let head = items.take(size as int);
        let rb = batches_of(rest, size);
        assert(bs == seq![head] + rb);
        assert(bs.drop_first() =~= rb);
        assert(concat_batches(bs) == bs[0] + concat_batches(bs.drop_first()));
        assert(head + rest =~= items);
        assert forall|k: int| 0 <= k < bs.len() implies 0 < (#[trigger] bs[k]).len() <= size by {
            if k > 0 {
                assert(bs[k] == rb[k - 1]);
            }
        }
    }
}

} // verus!
