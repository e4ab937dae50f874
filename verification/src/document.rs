//! Paginated documents: every page is rendered into an image file of its
//! own, and the preview is the list of those images in the order in which
//! they were found.

use vstd::prelude::*;
use vstd::string::*;
use crate::config::{texts, HttpResponse, HttpResponseView, SuffixProps, SuffixPropsView, CODE_SUCCESS};
use crate::text::{decimal, ends_with, join_text, starts_with, u64_to_decimal};
use crate::utils::{image_uri, Utils};

verus! {

pub struct Document;

/// One rendered page of a document.
#[derive(Debug, PartialEq, Eq)]
pub struct PreviewProps {
    /// The name of the page's image file.
    pub name: String,
    /// The path of that file.
    pub path: String,
    /// The image as a data URI.
    pub content: String,
}

pub struct PreviewPropsView {
    pub name: Seq<char>,
    pub path: Seq<char>,
    pub content: Seq<char>,
}

impl View for PreviewProps {
    type V = PreviewPropsView;

    open spec fn view(&self) -> PreviewPropsView {
        PreviewPropsView { name: self.name@, path: self.path@, content: self.content@ }
    }
}

impl Clone for PreviewProps {
    fn clone(&self) -> (r: Self)
        ensures
            r@ == self@,
    {
        PreviewProps {
            name: self.name.clone(),
            path: self.path.clone(),
            content: self.content.clone(),
        }
    }
}

impl Default for PreviewProps {
    fn default() -> (r: Self)
        ensures
            r@ == (PreviewPropsView { name: seq![], path: seq![], content: seq![] }),
    {
        PreviewProps { name: String::new(), path: String::new(), content: String::new() }
    }
}

/// A file found in the directory into which a document was rendered.
#[derive(Debug, PartialEq, Eq)]
pub struct PageFile {
    pub name: String,
    pub path: String,
    pub content: Vec<u8>,
}

pub struct PageFileView {
    pub name: Seq<char>,
    pub path: Seq<char>,
    pub content: Seq<u8>,
}

impl View for PageFile {
    type V = PageFileView;

    open spec fn view(&self) -> PageFileView {
        PageFileView { name: self.name@, path: self.path@, content: self.content@ }
    }
}

/// How the pages of a document are rendered.
#[derive(Debug, Clone, Copy, PartialEq, Eq, Structural)]
pub enum DocumentAction {
    /// The document is a PDF and is rasterised page by page.
    Pdf,
    /// The document is a word-processor file.
    Docx,
    /// No renderer takes the document: its manifest stays as it is.
    Unchanged,
}

pub const PAGE_HEAD: &'static str = "page-";

pub const PAGE_TAIL: &'static str = ".png";

pub const TYPE_PREVIEW: &'static str = "preview";

/// The views of the files of `v`.
pub open spec fn page_file_views(v: Seq<PageFile>) -> Seq<PageFileView> {
    v.map_values(|f: PageFile| f@)
}

/// The views of the pages of `v`.
pub open spec fn preview_views(v: Seq<PreviewProps>) -> Seq<PreviewPropsView> {
    v.map_values(|p: PreviewProps| p@)
}

/// The renderer for a document of the given suffix.
pub open spec fn document_action(suffix: Seq<char>) -> DocumentAction {
    if "pdf"@.is_suffix_of(suffix) {
        DocumentAction::Pdf
    } else if "docx"@.is_suffix_of(suffix) {
        DocumentAction::Docx
    } else {
        DocumentAction::Unchanged
    }
}

/// The name of the image file of page `index`, pages being counted from 0.
pub open spec fn page_name(index: nat) -> Seq<char> {
    PAGE_HEAD@ + decimal(index) + PAGE_TAIL@
}

/// Whether a file of this name holds a rendered page.
pub open spec fn is_page(name: Seq<char>) -> bool {
    PAGE_HEAD@.is_prefix_of(name)
}

/// The preview entry for a file that holds a rendered page.
pub open spec fn page_of(file: PageFileView) -> PreviewPropsView {
    PreviewPropsView { name: file.name, path: file.path, content: image_uri(file.content) }
}

/// The preview entries for the rendered pages among `files`, in the order
/// of the files.
pub open spec fn pages_of(files: Seq<PageFileView>) -> Seq<PreviewPropsView> {
    files.filter(|f: PageFileView| is_page(f.name)).map_values(|f: PageFileView| page_of(f))
}

/// The manifest of a document whose pages were rendered, `body` being the
/// list of pages written out as text.
pub open spec fn rendered(response: HttpResponseView, body: Seq<char>) -> HttpResponseView {
    HttpResponseView {
        code: CODE_SUCCESS,
        body,
        suffix_props: SuffixPropsView {
            name: response.file_props.suffix,
            kind: TYPE_PREVIEW@,
            list: seq![response.file_props.suffix],
        },
        ..response
    }
}

impl Document {
    /// Chooses the renderer for the document named in `response`.
    pub fn with_response(response: &HttpResponse) -> (action: DocumentAction)
        ensures
            action == document_action(response@.file_props.suffix),
    {
        let suffix = response.file_props.suffix.as_str();
        if ends_with(suffix, "pdf") {
            DocumentAction::Pdf
        } else if ends_with(suffix, "docx") {
            DocumentAction::Docx
        } else {
            DocumentAction::Unchanged
        }
    }

    /// The name of the image file into which page `index` is rendered.
    pub fn page_file_name(index: usize) -> (name: String)
        ensures
            name@ == page_name(index as nat),
    {
        let number = u64_to_decimal(index as u64);
        let head = join_text(PAGE_HEAD, number.as_str());
        join_text(head.as_str(), PAGE_TAIL)
    }

    /// Picks the rendered pages from the files of a directory and wraps
    /// each into a data URI. Files that are not pages are passed over.
    pub fn read_pictures(files: &Vec<PageFile>) -> (contents: Vec<PreviewProps>)
        requires
            forall|i: int| 0 <= i < files@.len() ==> (#[trigger] files@[i]).content@.len() <= usize::MAX / 8,
        ensures
            preview_views(contents@) == pages_of(page_file_views(files@)),
    {
        let ghost keep = |f: PageFileView| is_page(f.name);
        let ghost wrap = |f: PageFileView| page_of(f);
        let mut contents: Vec<PreviewProps> = Vec::new();
        let mut i: usize = 0;
        proof {
            assert(page_file_views(files@).take(0) =~= Seq::<PageFileView>::empty());
            assert(preview_views(contents@) =~= page_file_views(files@).take(0).filter(
                keep,
            ).map_values(wrap));
        }
        while i < files.len()
            invariant
                i <= files@.len(),
                keep == |f: PageFileView| is_page(f.name),
                wrap == |f: PageFileView| page_of(f),
                forall|i: int|
                    0 <= i < files@.len() ==> (#[trigger] files@[i]).content@.len() <= usize::MAX
                        / 8,
                preview_views(contents@) == page_file_views(files@).take(i as int).filter(
                    keep,
                ).map_values(wrap),
            decreases files@.len() - i,
        {
            let file = &files[i];
            proof {
                let all = page_file_views(files@);
                let next = all.take(i + 1);
                assert(next.drop_last() =~= all.take(i as int));
                assert(next.last() == file@);
                reveal(Seq::filter);
                assert(next.filter(keep) == if keep(next.last()) {
                    all.take(i as int).filter(keep).push(next.last())
                } else {
                    all.take(i as int).filter(keep)
                });
            }
            if starts_with(file.name.as_str(), PAGE_HEAD) {
                let ghost before = preview_views(contents@);
                let page = PreviewProps {
                    name: file.name.clone(),
                    path: file.path.clone(),
                    content: Utils::generate_image(file.content.clone()),
                };
                contents.push(page);
                proof {
                    let all = page_file_views(files@);
                    let kept = all.take(i as int).filter(keep);
                    assert(kept.push(file@).map_values(wrap) =~= kept.map_values(wrap).push(
                        page_of(file@),
                    ));
                    assert(preview_views(contents@) =~= before.push(page_of(file@)));
                }
            }
            i += 1;
        }
        assert(page_file_views(files@).take(files@.len() as int) =~= page_file_views(files@));
        contents
    }

    /// Finishes the manifest of a document whose pages were rendered:
    /// `body` is the list of pages, written out as text by the caller.
    pub fn prepare(response: HttpResponse, body: String) -> (res: HttpResponse)
        ensures
            res@ == rendered(response@, body@),
    {
        let mut res = response;
        res.code = CODE_SUCCESS;
        res.body = body;
        let mut list: Vec<String> = Vec::new();
        list.push(res.file_props.suffix.clone());
        assert(texts(list@) =~= seq![res.file_props.suffix@]);
        res.suffix_props = SuffixProps {
            name: res.file_props.suffix.clone(),
            _type: TYPE_PREVIEW.to_owned(),
            list,
        };
        res
    }
}

} // verus!
