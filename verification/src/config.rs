//! The data model shared by every stage of the preview pipeline, and the
//! fixed tables of recognised suffixes.

use vstd::prelude::*;
use vstd::string::*;
use crate::prepare::HttpResponseData;
use crate::text::same_text;

verus! {

/// File name of the manifest kept beside each materialised preview.
pub const PREVIEW_FILE: &'static str = "preview.json";

/// File name of the index of recently viewed items.
pub const HISTORY_FILE: &'static str = "history";

/// Prefix of the identifier given to every entry of the history index.
pub const FILE_RECENT_FILES_ID: &'static str = "__FILE_HISTORY__";

/// Largest number of entries the history index holds.
pub const HISTORY_COUNT: usize = 30;

/// Largest number of chunk-writing tasks that run at the same time.
pub const MAX_ASYNC_TASK_COUNT: usize = 10;

/// Number of rows from which a sheet is split into chunks, and the number
/// of rows in each full chunk.
pub const TAKE_EXCEL_COUNT: usize = 100000;

/// Status code of a manifest that is not ready.
pub const CODE_FAILURE: u16 = 500;

/// Status code of a finished manifest.
pub const CODE_SUCCESS: u16 = 200;

/// The views of the strings of `v`.
pub open spec fn texts(v: Seq<String>) -> Seq<Seq<char>> {
    v.map_values(|s: String| s@)
}

/// The suffixes of the images that can be previewed. The last one is the
/// vector format, which is text and is shown as such.
pub open spec fn image_suffixes() -> Seq<Seq<char>> {
    seq![
        "jpeg"@,
        "jpg"@,
        "png"@,
        "gif"@,
        "tiff"@,
        "tif"@,
        "webp"@,
        "ico"@,
        "heic"@,
        "bmp"@,
        "svg"@,
    ]
}

/// The suffixes of paginated documents.
pub open spec fn document_suffixes() -> Seq<Seq<char>> {
    seq!["pdf"@, "doc"@, "docx"@, "ppt"@, "pptx"@]
}

/// The suffixes of spreadsheets.
pub open spec fn excel_suffixes() -> Seq<Seq<char>> {
    seq!["xls"@, "xlsx"@, "xlsm"@, "xlsb"@, "xla"@, "xlam"@]
}

/// The suffixes of archives. `tar.xz` names a two-stage archive and is
/// looked for at the end of the whole file name.
pub open spec fn archive_suffixes() -> Seq<Seq<char>> {
    seq![
        "zip"@,
        "bz2"@,
        "gz"@,
        "zlib"@,
        "tar"@,
        "rar"@,
        "7z"@,
        "tar.xz"@,
        "xz"@,
        "tgz"@,
    ]
}

/// The table of image suffixes.
pub fn image_suffix_list() -> (list: Vec<String>)
    ensures
        texts(list@) == image_suffixes(),
{
    let mut list: Vec<String> = Vec::new();
    list.push("jpeg".to_owned());
    list.push("jpg".to_owned());
    list.push("png".to_owned());
    list.push("gif".to_owned());
    list.push("tiff".to_owned());
    list.push("tif".to_owned());
    list.push("webp".to_owned());
    list.push("ico".to_owned());
    list.push("heic".to_owned());
    list.push("bmp".to_owned());
    list.push("svg".to_owned());
    assert(texts(list@) =~= image_suffixes());
    list
}

/// The table of document suffixes.
pub fn document_suffix_list() -> (list: Vec<String>)
    ensures
        texts(list@) == document_suffixes(),
{
    let mut list: Vec<String> = Vec::new();
    list.push("pdf".to_owned());
    list.push("doc".to_owned());
    list.push("docx".to_owned());
    list.push("ppt".to_owned());
    list.push("pptx".to_owned());
    assert(texts(list@) =~= document_suffixes());
    list
}

/// The table of spreadsheet suffixes.
pub fn excel_suffix_list() -> (list: Vec<String>)
    ensures
        texts(list@) == excel_suffixes(),
{
    let mut list: Vec<String> = Vec::new();
    list.push("xls".to_owned());
    list.push("xlsx".to_owned());
    list.push("xlsm".to_owned());
    list.push("xlsb".to_owned());
    list.push("xla".to_owned());
    list.push("xlam".to_owned());
    assert(texts(list@) =~= excel_suffixes());
    list
}

/// The table of archive suffixes.
pub fn archive_suffix_list() -> (list: Vec<String>)
    ensures
        texts(list@) == archive_suffixes(),
{
    let mut list: Vec<String> = Vec::new();
    list.push("zip".to_owned());
    list.push("bz2".to_owned());
    list.push("gz".to_owned());
    list.push("zlib".to_owned());
    list.push("tar".to_owned());
    list.push("rar".to_owned());
    list.push("7z".to_owned());
    list.push("tar.xz".to_owned());
    list.push("xz".to_owned());
    list.push("tgz".to_owned());
    assert(texts(list@) =~= archive_suffixes());
    list
}

/// Whether `text` is one of the strings of `list`.
pub fn list_contains(list: &Vec<String>, text: &str) -> (found: bool)
    ensures
        found == texts(list@).contains(text@),
{
    let mut i: usize = 0;
    while i < list.len()
        invariant
            i <= list@.len(),
            forall|j: int| 0 <= j < i ==> texts(list@)[j] != text@,
        decreases list@.len() - i,
    {
        if same_text(list[i].as_str(), text) {
            assert(texts(list@)[i as int] == text@);
            return true;
        }
        i += 1;
    }
    false
}

/// One entry of the index of recently viewed items.
#[derive(Debug, PartialEq, Eq)]
pub struct History {
    pub id: String,
    pub name: String,
    pub path: String,
    pub update_time: i64,
}

pub struct HistoryView {
    pub id: Seq<char>,
    pub name: Seq<char>,
    pub path: Seq<char>,
    pub update_time: int,
}

impl View for History {
    type V = HistoryView;

    open spec fn view(&self) -> HistoryView {
        HistoryView {
            id: self.id@,
            name: self.name@,
            path: self.path@,
            update_time: self.update_time as int,
        }
    }
}

impl Clone for History {
    fn clone(&self) -> (r: Self)
        ensures
            r@ == self@,
    {
        History {
            id: self.id.clone(),
            name: self.name.clone(),
            path: self.path.clone(),
            update_time: self.update_time,
        }
    }
}

impl Default for History {
    fn default() -> (r: Self)
        ensures
            r@ == (HistoryView { id: seq![], name: seq![], path: seq![], update_time: 0 }),
    {
        History { id: String::new(), name: String::new(), path: String::new(), update_time: 0 }
    }
}

/// A copy of the strings of `v`.
pub fn copy_texts(v: &Vec<String>) -> (r: Vec<String>)
    ensures
        texts(r@) == texts(v@),
{
    let mut r: Vec<String> = Vec::new();
    let mut i: usize = 0;
    while i < v.len()
        invariant
            i <= v@.len(),
            r@.len() == i,
            forall|j: int| 0 <= j < i ==> r@[j]@ == v@[j]@,
        decreases v@.len() - i,
    {
        r.push(v[i].clone());
        i += 1;
    }
    assert(texts(r@) =~= texts(v@));
    r
}

/// The suffix of a previewed file, the family it belongs to and the other
/// suffixes of that family.
#[derive(Debug, PartialEq, Eq)]
pub struct SuffixProps {
    pub name: String,
    pub _type: String,
    pub list: Vec<String>,
}

pub struct SuffixPropsView {
    pub name: Seq<char>,
    pub kind: Seq<char>,
    pub list: Seq<Seq<char>>,
}

impl SuffixPropsView {
    pub open spec fn empty() -> SuffixPropsView {
        SuffixPropsView { name: seq![], kind: seq![], list: seq![] }
    }
}

impl View for SuffixProps {
    type V = SuffixPropsView;

    open spec fn view(&self) -> SuffixPropsView {
        SuffixPropsView { name: self.name@, kind: self._type@, list: texts(self.list@) }
    }
}

impl Clone for SuffixProps {
    fn clone(&self) -> (r: Self)
        ensures
            r@ == self@,
    {
        let r = SuffixProps {
            name: self.name.clone(),
            _type: self._type.clone(),
            list: copy_texts(&self.list),
        };
        r
    }
}

impl Default for SuffixProps {
    fn default() -> (r: Self)
        ensures
            r@ == SuffixPropsView::empty(),
    {
        let r = SuffixProps { name: String::new(), _type: String::new(), list: Vec::new() };
        assert(texts(r.list@) =~= seq![]);
        r
    }
}

/// A file or directory: its names, its metadata and, for a directory, what
/// it holds.
#[derive(Debug, PartialEq, Eq)]
pub struct FileProps {
    pub key: String,
    pub name: String,
    pub suffix: String,
    pub prefix: String,
    pub path: String,
    pub full_path: String,
    pub kind: String,
    pub size: String,
    pub old_size: u64,
    pub packed: String,
    pub modified: String,
    pub permissions: String,
    pub executable: bool,
    pub is_directory: bool,
    pub files: Vec<FileProps>,
}

pub struct FilePropsView {
    pub key: Seq<char>,
    pub name: Seq<char>,
    pub suffix: Seq<char>,
    pub prefix: Seq<char>,
    pub path: Seq<char>,
    pub full_path: Seq<char>,
    pub kind: Seq<char>,
    pub size: Seq<char>,
    pub old_size: u64,
    pub packed: Seq<char>,
    pub modified: Seq<char>,
    pub permissions: Seq<char>,
    pub executable: bool,
    pub is_directory: bool,
    pub files: Seq<FilePropsView>,
}

impl FilePropsView {
    /// The descriptor with every text empty, every number zero, every flag
    /// unset and no children.
    pub open spec fn empty() -> FilePropsView {
        FilePropsView {
            key: seq![],
            name: seq![],
            suffix: seq![],
            prefix: seq![],
            path: seq![],
            full_path: seq![],
            kind: seq![],
            size: seq![],
            old_size: 0,
            packed: seq![],
            modified: seq![],
            permissions: seq![],
            executable: false,
            is_directory: false,
            files: seq![],
        }
    }

    /// This descriptor with its children replaced by `files`.
    pub open spec fn with_files(self, files: Seq<FilePropsView>) -> FilePropsView {
        FilePropsView { files, ..self }
    }
}

impl FileProps {
    /// The descriptor as plain values, children included.
    pub open spec fn snapshot(&self) -> FilePropsView
        decreases self,
    {
        FilePropsView {
            key: self.key@,
            name: self.name@,
            suffix: self.suffix@,
            prefix: self.prefix@,
            path: self.path@,
            full_path: self.full_path@,
            kind: self.kind@,
            size: self.size@,
            old_size: self.old_size,
            packed: self.packed@,
            modified: self.modified@,
            permissions: self.permissions@,
            executable: self.executable,
            is_directory: self.is_directory,
            files: Seq::new(
                self.files@.len(),
                |i: int|
                    if 0 <= i < self.files@.len() {
                        self.files@[i].snapshot()
                    } else {
                        FilePropsView::empty()
                    },
            ),
        }
    }
}

impl View for FileProps {
    type V = FilePropsView;

    open spec fn view(&self) -> FilePropsView {
        self.snapshot()
    }
}

/// The views of the descriptors of `v`.
pub open spec fn props_views(v: Seq<FileProps>) -> Seq<FilePropsView> {
    v.map_values(|f: FileProps| f@)
}

/// The children of a descriptor's view are the views of its children.
pub proof fn lemma_files_view(f: FileProps)
    ensures
        f@.files == props_views(f.files@),
        f@.files.len() == f.files@.len(),
        forall|i: int| 0 <= i < f.files@.len() ==> f@.files[i] == (#[trigger] f.files@[i])@,
{
    assert(f@.files =~= props_views(f.files@));
}

impl FileProps {
    /// A copy of this descriptor's own fields, with no children.
    pub fn without_files(&self) -> (r: Self)
        ensures
            r@ == self@.with_files(seq![]),
            r.files@.len() == 0,
    {
        let r = FileProps {
            key: self.key.clone(),
            name: self.name.clone(),
            suffix: self.suffix.clone(),
            prefix: self.prefix.clone(),
            path: self.path.clone(),
            full_path: self.full_path.clone(),
            kind: self.kind.clone(),
            size: self.size.clone(),
            old_size: self.old_size,
            packed: self.packed.clone(),
            modified: self.modified.clone(),
            permissions: self.permissions.clone(),
            executable: self.executable,
            is_directory: self.is_directory,
            files: Vec::new(),
        };
        assert(r@.files =~= seq![]);
        r
    }
}

impl Clone for FileProps {
    /// A copy of the whole subtree.
    fn clone(&self) -> (r: Self)
        ensures
            r@ == self@,
        decreases self,
    {
        let mut r = self.without_files();
        let mut i: usize = 0;
        while i < self.files.len()
            invariant
                i <= self.files@.len(),
                r@.with_files(seq![]) == self@.with_files(seq![]),
                r.files@.len() == i,
                forall|j: int| 0 <= j < i ==> r.files@[j]@ == self.files@[j]@,
            decreases self.files@.len() - i,
        {
            let child = self.files[i].clone();
            r.files.push(child);
            i += 1;
        }
        assert(r@.files =~= self@.files);
        r
    }
}

impl Default for FileProps {
    fn default() -> (r: Self)
        ensures
            r@ == FilePropsView::empty(),
    {
        let r = FileProps {
            key: String::new(),
            name: String::new(),
            suffix: String::new(),
            prefix: String::new(),
            path: String::new(),
            full_path: String::new(),
            kind: String::new(),
            size: String::new(),
            old_size: 0,
            packed: String::new(),
            modified: String::new(),
            permissions: String::new(),
            executable: false,
            is_directory: false,
            files: Vec::new(),
        };
        assert(r@.files =~= seq![]);
        r
    }
}

/// The preview manifest: what a request for a preview is answered with, and
/// what the cache stores.
#[derive(Debug, PartialEq, Eq)]
pub struct HttpResponse {
    pub code: u16,
    pub headers: Vec<(String, String)>,
    pub body: String,
    pub file_props: FileProps,
    pub error: String,
    pub suffix_props: SuffixProps,
}

pub struct HttpResponseView {
    pub code: u16,
    pub headers: Seq<(Seq<char>, Seq<char>)>,
    pub body: Seq<char>,
    pub file_props: FilePropsView,
    pub error: Seq<char>,
    pub suffix_props: SuffixPropsView,
}

impl HttpResponseView {
    pub open spec fn empty() -> HttpResponseView {
        HttpResponseView {
            code: 0,
            headers: seq![],
            body: seq![],
            file_props: FilePropsView::empty(),
            error: seq![],
            suffix_props: SuffixPropsView::empty(),
        }
    }
}

impl View for HttpResponse {
    type V = HttpResponseView;

    open spec fn view(&self) -> HttpResponseView {
        HttpResponseView {
            code: self.code,
            headers: self.headers@.map_values(|h: (String, String)| (h.0@, h.1@)),
            body: self.body@,
            file_props: self.file_props@,
            error: self.error@,
            suffix_props: self.suffix_props@,
        }
    }
}

impl Clone for HttpResponse {
    fn clone(&self) -> (r: Self)
        ensures
            r@ == self@,
    {
        let mut headers: Vec<(String, String)> = Vec::new();
        let mut i: usize = 0;
        while i < self.headers.len()
            invariant
                i <= self.headers@.len(),
                headers@.len() == i,
                forall|j: int|
                    0 <= j < i ==> headers@[j].0@ == self.headers@[j].0@ && headers@[j].1@
                        == self.headers@[j].1@,
            decreases self.headers@.len() - i,
        {
            headers.push((self.headers[i].0.clone(), self.headers[i].1.clone()));
            i += 1;
        }
        let r = HttpResponse {
            code: self.code,
            headers,
            body: self.body.clone(),
            file_props: self.file_props.clone(),
            error: self.error.clone(),
            suffix_props: self.suffix_props.clone(),
        };
        assert(r@.headers =~= self@.headers);
        r
    }
}

impl Default for HttpResponse {
    fn default() -> (r: Self)
        ensures
            r@ == HttpResponseView::empty(),
    {
        let r = HttpResponse {
            code: 0,
            headers: Vec::new(),
            body: String::new(),
            file_props: FileProps::default(),
            error: String::new(),
            suffix_props: SuffixProps::default(),
        };
        assert(r@.headers =~= seq![]);
        r
    }
}

impl HttpResponseData for HttpResponse {

}

/// Totals of a workbook.
#[derive(Debug, Clone, Copy, PartialEq, Eq)]
pub struct ExcelResponse {
    pub total_rows: usize,
    pub total_cells: usize,
}

impl Default for ExcelResponse {
    fn default() -> (r: Self)
        ensures
            r.total_rows == 0,
            r.total_cells == 0,
    {
        ExcelResponse { total_rows: 0, total_cells: 0 }
    }
}

/// One cell of a sheet, as text, with its position inside its chunk.
#[derive(Debug, PartialEq, Eq)]
pub struct ExcelCell {
    pub value: String,
    pub row_index: usize,
    pub cell_index: usize,
}

pub struct ExcelCellView {
    pub value: Seq<char>,
    pub row_index: int,
    pub cell_index: int,
}

impl View for ExcelCell {
    type V = ExcelCellView;

    open spec fn view(&self) -> ExcelCellView {
        ExcelCellView {
            value: self.value@,
            row_index: self.row_index as int,
            cell_index: self.cell_index as int,
        }
    }
}

impl Clone for ExcelCell {
    fn clone(&self) -> (r: Self)
        ensures
            r@ == self@,
    {
        ExcelCell {
            value: self.value.clone(),
            row_index: self.row_index,
            cell_index: self.cell_index,
        }
    }
}

impl Default for ExcelCell {
    fn default() -> (r: Self)
        ensures
            r@ == (ExcelCellView { value: seq![], row_index: 0, cell_index: 0 }),
    {
        ExcelCell { value: String::new(), row_index: 0, cell_index: 0 }
    }
}

/// One row of a sheet, with its position inside its chunk.
#[derive(Debug, PartialEq, Eq)]
pub struct ExcelRow {
    pub index: usize,
    pub cells: Vec<ExcelCell>,
}

pub struct ExcelRowView {
    pub index: int,
    pub cells: Seq<ExcelCellView>,
}

impl View for ExcelRow {
    type V = ExcelRowView;

    open spec fn view(&self) -> ExcelRowView {
        ExcelRowView {
            index: self.index as int,
            cells: self.cells@.map_values(|c: ExcelCell| c@),
        }
    }
}

impl Clone for ExcelRow {
    fn clone(&self) -> (r: Self)
        ensures
            r@ == self@,
    {
        let mut cells: Vec<ExcelCell> = Vec::new();
        let mut i: usize = 0;
        while i < self.cells.len()
            invariant
                i <= self.cells@.len(),
                cells@.len() == i,
                forall|j: int| 0 <= j < i ==> cells@[j]@ == self.cells@[j]@,
            decreases self.cells@.len() - i,
        {
            cells.push(self.cells[i].clone());
            i += 1;
        }
        let r = ExcelRow { index: self.index, cells };
        assert(r@.cells =~= self@.cells);
        r
    }
}

impl Default for ExcelRow {
    fn default() -> (r: Self)
        ensures
            r@ == (ExcelRowView { index: 0, cells: seq![] }),
    {
        let r = ExcelRow { index: 0, cells: Vec::new() };
        assert(r@.cells =~= seq![]);
        r
    }
}

/// One contiguous run of rows of a sheet, written as one chunk file.
/// Rows are counted from 1 and both ends are included.
#[derive(Debug, PartialEq, Eq)]
pub struct ExcelSheetMetadata {
    pub name: String,
    pub row_start: usize,
    pub row_end: usize,
    pub task_id: usize,
}

pub struct ExcelSheetMetadataView {
    pub name: Seq<char>,
    pub row_start: int,
    pub row_end: int,
    pub task_id: int,
}

impl View for ExcelSheetMetadata {
    type V = ExcelSheetMetadataView;

    open spec fn view(&self) -> ExcelSheetMetadataView {
        ExcelSheetMetadataView {
            name: self.name@,
            row_start: self.row_start as int,
            row_end: self.row_end as int,
            task_id: self.task_id as int,
        }
    }
}

impl Clone for ExcelSheetMetadata {
    fn clone(&self) -> (r: Self)
        ensures
            r@ == self@,
    {
        ExcelSheetMetadata {
            name: self.name.clone(),
            row_start: self.row_start,
            row_end: self.row_end,
            task_id: self.task_id,
        }
    }
}

impl Default for ExcelSheetMetadata {
    fn default() -> (r: Self)
        ensures
            r@ == (ExcelSheetMetadataView { name: seq![], row_start: 0, row_end: 0, task_id: 0 }),
    {
        ExcelSheetMetadata { name: String::new(), row_start: 0, row_end: 0, task_id: 0 }
    }
}

/// The views of the chunk entries of `v`.
pub open spec fn metadata_views(v: Seq<ExcelSheetMetadata>) -> Seq<ExcelSheetMetadataView> {
    v.map_values(|m: ExcelSheetMetadata| m@)
}

/// The summary of one sheet: its size and the chunks it was written in.
#[derive(Debug, PartialEq, Eq)]
pub struct ExcelSheet {
    pub name: String,
    pub index: u32,
    pub rows_count: usize,
    pub cells_count: usize,
    pub metadata: Vec<ExcelSheetMetadata>,
}

pub struct ExcelSheetView {
    pub name: Seq<char>,
    pub index: int,
    pub rows_count: int,
    pub cells_count: int,
    pub metadata: Seq<ExcelSheetMetadataView>,
}

impl View for ExcelSheet {
    type V = ExcelSheetView;

    open spec fn view(&self) -> ExcelSheetView {
        ExcelSheetView {
            name: self.name@,
            index: self.index as int,
            rows_count: self.rows_count as int,
            cells_count: self.cells_count as int,
            metadata: metadata_views(self.metadata@),
        }
    }
}

impl Clone for ExcelSheet {
    fn clone(&self) -> (r: Self)
        ensures
            r@ == self@,
    {
        let mut metadata: Vec<ExcelSheetMetadata> = Vec::new();
        let mut i: usize = 0;
        while i < self.metadata.len()
            invariant
                i <= self.metadata@.len(),
                metadata@.len() == i,
                forall|j: int| 0 <= j < i ==> metadata@[j]@ == self.metadata@[j]@,
            decreases self.metadata@.len() - i,
        {
            metadata.push(self.metadata[i].clone());
            i += 1;
        }
        let r = ExcelSheet {
            name: self.name.clone(),
            index: self.index,
            rows_count: self.rows_count,
            cells_count: self.cells_count,
            metadata,
        };
        assert(r@.metadata =~= self@.metadata);
        r
    }
}

impl Default for ExcelSheet {
    fn default() -> (r: Self)
        ensures
            r@ == (ExcelSheetView {
                name: seq![],
                index: 0,
                rows_count: 0,
                cells_count: 0,
                metadata: seq![],
            }),
    {
        let r = ExcelSheet {
            name: String::new(),
            index: 0,
            rows_count: 0,
            cells_count: 0,
            metadata: Vec::new(),
        };
        assert(r@.metadata =~= seq![]);
        r
    }
}

} // verus!
