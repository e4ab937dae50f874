//! The stages of a preview request.
//!
//! A request names a file and brings either its bytes or its path. Each
//! stage here takes what the caller has read so far and answers with the
//! manifest as it stands and with what is to be done next.

use vstd::prelude::*;
use vstd::string::*;
use vstd::utf8::*;
use crate::config::{
    archive_suffix_list, archive_suffixes, document_suffix_list, document_suffixes,
    excel_suffix_list, excel_suffixes, image_suffix_list, image_suffixes, list_contains, texts,
    FileProps, FilePropsView, HttpResponse, HttpResponseView, SuffixProps, SuffixPropsView,
    CODE_FAILURE, CODE_SUCCESS, PREVIEW_FILE,
};
use crate::outside::{
    decode_lossy, lossy_text, percent_decode, percent_decoded, strict_text, utf8_error_text,
};
use crate::text::{join_text, same_text};
use crate::utils::file::{
    content_hash, file_suffix, path_in, permissions_text, size_text, stem, FileUtils,
};
use crate::utils::{image_uri, Utils};

verus! {

pub struct Process;

/// The family a file belongs to, by its suffix.
#[derive(Debug, Clone, Copy, PartialEq, Eq, Structural)]
pub enum Kind {
    Image,
    Document,
    Spreadsheet,
    Archive,
    Unknown,
}

/// What is done with the content of a file once its family is known.
#[derive(Debug, Clone, Copy, PartialEq, Eq, Structural)]
pub enum BlobAction {
    /// The manifest is finished.
    Ready,
    /// The pages of the document are to be rendered.
    Document,
    /// The sheets of the workbook are to be written out.
    Spreadsheet,
}

/// What is done with a file on disk once its metadata is known.
#[derive(Debug, Clone, Copy, PartialEq, Eq, Structural)]
pub enum JsonAction {
    /// The file is executable and is not previewed.
    Blocked,
    /// The path is a directory: it is listed.
    Directory,
    /// A stored preview may exist: the cache is looked at first.
    CompareCache,
    /// The file is previewed afresh.
    PrepareFile,
}

/// How a file on disk is previewed afresh.
#[derive(Debug, Clone, Copy, PartialEq, Eq, Structural)]
pub enum FileAction {
    /// It is an archive and is unpacked.
    Extract,
    /// Its bytes are read and shown.
    ReadBlob,
}

/// Whether a stored preview is used.
#[derive(Debug, Clone, Copy, PartialEq, Eq, Structural)]
pub enum CacheDecision {
    /// The stored manifest is returned as it is.
    Reuse,
    /// The preview is built again and stored over the old one.
    Rebuild,
}

/// How the execute bits of a file decide whether it is previewed.
#[derive(Debug, Clone, Copy, PartialEq, Eq, Structural)]
pub enum ExecutablePolicy {
    /// No file counts as executable.
    Disabled,
    /// A file counts as executable when any of its execute bits is set.
    ExecuteBits,
}

/// What was read about a path from the file system.
#[derive(Debug, PartialEq, Eq)]
pub struct FileStat {
    /// Size in bytes.
    pub size: u64,
    /// Time of the last change, as shown to the user.
    pub modified: String,
    /// Mode bits.
    pub mode: u32,
    /// Whether the path is a directory.
    pub is_directory: bool,
}

pub const MESSAGE_NO_FILE_NAME: &'static str = "`fileName` not in headers !";

pub const TYPE_IMAGE: &'static str = "image";

pub const TYPE_DIRECTORY: &'static str = "dir";

pub const KIND_DIRECTORY: &'static str = "Directory";

pub const SUFFIX_SVG: &'static str = "svg";

/// The family of a suffix.
pub open spec fn kind_of(suffix: Seq<char>) -> Kind {
    if image_suffixes().contains(suffix) {
        Kind::Image
    } else if document_suffixes().contains(suffix) {
        Kind::Document
    } else if excel_suffixes().contains(suffix) {
        Kind::Spreadsheet
    } else if archive_suffixes().contains(suffix) {
        Kind::Archive
    } else {
        Kind::Unknown
    }
}

/// The manifest a request for `name` starts from: not ready, and holding
/// the name, its suffix and what precedes the suffix.
pub open spec fn initial_response(name: Seq<char>) -> HttpResponseView {
    HttpResponseView {
        code: CODE_FAILURE,
        file_props: FilePropsView {
            name,
            suffix: file_suffix(name),
            prefix: stem(name),
            ..FilePropsView::empty()
        },
        ..HttpResponseView::empty()
    }
}

/// The list of sibling suffixes that goes with a manifest of type `kind`.
pub open spec fn sibling_suffixes(kind: Seq<char>) -> Seq<Seq<char>> {
    if kind == TYPE_IMAGE@ {
        image_suffixes()
    } else {
        seq![]
    }
}

/// `response` finished: marked as a success, holding `content` if there
/// is any, and described as being of type `kind`.
pub open spec fn finished(
    response: HttpResponseView,
    content: Option<Seq<char>>,
    kind: Seq<char>,
) -> HttpResponseView {
    HttpResponseView {
        code: CODE_SUCCESS,
        body: match content {
            Some(text) => text,
            None => response.body,
        },
        suffix_props: SuffixPropsView {
            name: response.file_props.suffix,
            kind,
            list: sibling_suffixes(kind),
        },
        ..response
    }
}

/// What is done with the bytes of a file of the given suffix.
pub open spec fn blob_action(suffix: Seq<char>) -> BlobAction {
    match kind_of(suffix) {
        Kind::Document => BlobAction::Document,
        Kind::Spreadsheet => BlobAction::Spreadsheet,
        _ => BlobAction::Ready,
    }
}

/// The text that shows the bytes `data` of a file of the given suffix: an
/// image goes into a data URI, but for the vector format, whose bytes must
/// be UTF-8 and are shown as they are; anything else is decoded as text,
/// with what cannot be decoded replaced.
pub open spec fn blob_content(data: Seq<u8>, suffix: Seq<char>) -> Result<Seq<char>, Seq<char>> {
    if kind_of(suffix) == Kind::Image {
        if suffix == SUFFIX_SVG@ {
            if valid_utf8(data) {
                Ok(decode_utf8(data))
            } else {
                Err(utf8_error_text(data))
            }
        } else {
            Ok(image_uri(data))
        }
    } else {
        Ok(lossy_text(data))
    }
}

/// The type under which the content of a file of the given suffix is shown.
pub open spec fn blob_type(suffix: Seq<char>) -> Seq<char> {
    if kind_of(suffix) == Kind::Image {
        TYPE_IMAGE@
    } else {
        seq![]
    }
}

/// Whether a file of mode `mode` counts as executable.
pub open spec fn counts_as_executable(policy: ExecutablePolicy, mode: u32) -> bool {
    policy == ExecutablePolicy::ExecuteBits && mode & 0o111 != 0
}

/// The metadata of the file at `path`.
pub open spec fn props_of(
    path: Seq<char>,
    size: u64,
    modified: Seq<char>,
    mode: u32,
    policy: ExecutablePolicy,
) -> FilePropsView {
    FilePropsView {
        path,
        size: size_text(size),
        old_size: size,
        modified,
        permissions: permissions_text(mode),
        executable: counts_as_executable(policy, mode),
        ..FilePropsView::empty()
    }
}

/// The message with which an executable file is turned away.
pub open spec fn blocked_message(path: Seq<char>) -> Seq<char> {
    "the `"@ + path + "` file is an executable file !"@
}

/// What is done with a file on disk.
pub open spec fn json_action(executable: bool, is_directory: bool, suffix: Seq<char>) -> JsonAction {
    if executable {
        JsonAction::Blocked
    } else if is_directory {
        JsonAction::Directory
    } else if kind_of(suffix) == Kind::Document || kind_of(suffix) == Kind::Spreadsheet || kind_of(
        suffix,
    ) == Kind::Archive {
        JsonAction::CompareCache
    } else {
        JsonAction::PrepareFile
    }
}

/// The manifest after the metadata of the file at `path` has been read.
pub open spec fn json_response(
    path: Seq<char>,
    size: u64,
    modified: Seq<char>,
    mode: u32,
    policy: ExecutablePolicy,
    response: HttpResponseView,
) -> HttpResponseView {
    if counts_as_executable(policy, mode) {
        HttpResponseView { error: blocked_message(path), ..response }
    } else {
        HttpResponseView {
            file_props: FilePropsView {
                name: response.file_props.name,
                suffix: response.file_props.suffix,
                prefix: response.file_props.prefix,
                ..props_of(path, size, modified, mode, policy)
            },
            ..response
        }
    }
}

/// One step of storing a finished preview.
#[derive(Debug, PartialEq, Eq)]
pub enum StoreStep {
    /// The file at `from` is copied into the directory `into`.
    CopySource { from: String, into: String },
    /// The manifest is written to `path`.
    WriteManifest { path: String },
}

pub enum StoreStepView {
    CopySource { from: Seq<char>, into: Seq<char> },
    WriteManifest { path: Seq<char> },
}

impl View for StoreStep {
    type V = StoreStepView;

    open spec fn view(&self) -> StoreStepView {
        match self {
            StoreStep::CopySource { from, into } => StoreStepView::CopySource {
                from: from@,
                into: into@,
            },
            StoreStep::WriteManifest { path } => StoreStepView::WriteManifest { path: path@ },
        }
    }
}

/// The steps by which the preview of the file at `source` is stored in
/// the directory `temp_dir`: first the file is copied there, and only then
/// is the manifest written, so that a manifest never stands beside a copy
/// that is missing or not whole.
pub open spec fn store_steps(temp_dir: Seq<char>, source: Seq<char>) -> Seq<StoreStepView> {
    seq![
        StoreStepView::CopySource { from: source, into: temp_dir },
        StoreStepView::WriteManifest { path: path_in(temp_dir, PREVIEW_FILE@) },
    ]
}

/// Whether the preview stored for a file is used: the stored copy of the
/// file must be there, both contents must hash to the same non-empty
/// value, and a non-empty manifest must be there.
pub open spec fn cache_hit(
    source: Seq<u8>,
    copy: Option<Seq<u8>>,
    manifest: Option<Seq<char>>,
) -> bool {
    &&& copy is Some
    &&& content_hash(source).len() > 0
    &&& content_hash(copy->0).len() > 0
    &&& content_hash(source) == content_hash(copy->0)
    &&& manifest is Some
    &&& manifest->0.len() > 0
}

/// What is answered to a request that names a file on disk by the
/// parameters `file_path` and `file_type`: without a path, or with an
/// empty one, the request fails; otherwise the answer says whether the
/// file is entered into the index of recently viewed items, which it is
/// unless the request states a type.
pub open spec fn request_for_path(
    file_path: Option<Seq<char>>,
    file_type: Option<Seq<char>>,
) -> Result<bool, Seq<char>> {
    if file_path is None || file_path->0.len() == 0 {
        Err(MESSAGE_NO_FILE_NAME@)
    } else {
        Ok(file_type is None || file_type->0.len() == 0)
    }
}

/// What `get_filename` answers for the value of the header that names the
/// file.
pub open spec fn file_name_of(header: Option<Seq<char>>) -> Result<Seq<char>, Seq<char>> {
    match header {
        None => Err(MESSAGE_NO_FILE_NAME@),
        Some(value) => percent_decoded(value),
    }
}

impl Process {
    /// Classifies a file by its name: its suffix, and the family the suffix
    /// belongs to. Every name has exactly one family; a suffix that is in
    /// no table is `Unknown`.
    pub fn classify(file_name: &str) -> (r: (String, Kind))
        ensures
            r.0@ == file_suffix(file_name@),
            r.1 == kind_of(file_suffix(file_name@)),
    {
        let suffix = FileUtils::get_file_suffix(file_name);
        let kind = Self::kind_of_suffix(suffix.as_str());
        (suffix, kind)
    }

    /// The family of a suffix.
    pub fn kind_of_suffix(suffix: &str) -> (kind: Kind)
        ensures
            kind == kind_of(suffix@),
    {
        if list_contains(&image_suffix_list(), suffix) {
            Kind::Image
        } else if list_contains(&document_suffix_list(), suffix) {
            Kind::Document
        } else if list_contains(&excel_suffix_list(), suffix) {
            Kind::Spreadsheet
        } else if list_contains(&archive_suffix_list(), suffix) {
            Kind::Archive
        } else {
            Kind::Unknown
        }
    }

    /// Takes the name of the file from the header that carries it. The
    /// name arrives percent-encoded and is decoded.
    pub fn get_filename(header: Option<&str>) -> (r: Result<String, String>)
        ensures
            match r {
                Ok(name) => file_name_of(
                    match header {
                        Some(value) => Some(value@),
                        None => None,
                    },
                ) == Ok::<Seq<char>, Seq<char>>(name@),
                Err(message) => file_name_of(
                    match header {
                        Some(value) => Some(value@),
                        None => None,
                    },
                ) == Err::<Seq<char>, Seq<char>>(message@),
            },
    {
        match header {
            None => Err(MESSAGE_NO_FILE_NAME.to_owned()),
            Some(value) => percent_decode(value),
        }
    }

    /// Checks the parameters of a request that names a file on disk, and
    /// says whether the file is to be entered into the index of recently
    /// viewed items.
    pub fn prepare(file_path: Option<&str>, file_type: Option<&str>) -> (r: Result<bool, String>)
        ensures
            match r {
                Ok(save) => request_for_path(
                    match file_path {
                        Some(path) => Some(path@),
                        None => None,
                    },
                    match file_type {
                        Some(kind) => Some(kind@),
                        None => None,
                    },
                ) == Ok::<bool, Seq<char>>(save),
                Err(message) => request_for_path(
                    match file_path {
                        Some(path) => Some(path@),
                        None => None,
                    },
                    match file_type {
                        Some(kind) => Some(kind@),
                        None => None,
                    },
                ) == Err::<bool, Seq<char>>(message@),
            },
    {
        match file_path {
            None => Err(MESSAGE_NO_FILE_NAME.to_owned()),
            Some(path) => {
                if path.is_empty() {
                    Err(MESSAGE_NO_FILE_NAME.to_owned())
                } else {
                    match file_type {
                        None => Ok(true),
                        Some(kind) => Ok(kind.is_empty()),
                    }
                }
            },
        }
    }

    /// Starts the manifest of a request for the file called `filename`.
    pub fn get_response(filename: &str) -> (response: HttpResponse)
        ensures
            response@ == initial_response(filename@),
    {
        let mut response = HttpResponse::default();
        response.code = CODE_FAILURE;
        response.file_props.name = filename.to_owned();
        response.file_props.suffix = FileUtils::get_file_suffix(filename);
        response.file_props.prefix = FileUtils::get_file_prefix(filename);
        response
    }

    /// Finishes a manifest: it becomes a success, takes `content` as its
    /// body if there is any, and is described as being of type `_type`.
    pub fn prepare_response(response: HttpResponse, content: Option<String>, _type: &str) -> (res:
        HttpResponse)
        ensures
            res@ == finished(
                response@,
                match content {
                    Some(text) => Some(text@),
                    None => None,
                },
                _type@,
            ),
    {
        let mut res = response;
        res.code = CODE_SUCCESS;
        if let Some(text) = content {
            res.body = text;
        }
        let list = if same_text(_type, TYPE_IMAGE) {
            image_suffix_list()
        } else {
            let empty: Vec<String> = Vec::new();
            assert(texts(empty@) =~= seq![]);
            empty
        };
        res.suffix_props = SuffixProps {
            name: res.file_props.suffix.clone(),
            _type: _type.to_owned(),
            list,
        };
        res
    }

    /// Turns the bytes of a file into its preview, or says who is to do so.
    ///
    /// An image and any file of no known family are finished here. A
    /// document or a workbook is handed on unchanged. The one failure is a
    /// vector image whose bytes are not UTF-8.
    pub fn prepare_blob(data: &Vec<u8>, response: HttpResponse) -> (r: Result<
        (BlobAction, HttpResponse),
        String,
    >)
        requires
            data@.len() <= usize::MAX / 8,
        ensures
            match r {
                Ok((action, res)) => {
                    &&& action == blob_action(response@.file_props.suffix)
                    &&& action == BlobAction::Ready ==> {
                        &&& blob_content(data@, response@.file_props.suffix) is Ok
                        &&& res@ == finished(
                            response@,
                            Some(blob_content(data@, response@.file_props.suffix)->Ok_0),
                            blob_type(response@.file_props.suffix),
                        )
                    }
                    &&& action != BlobAction::Ready ==> res@ == response@
                },
                Err(message) => {
                    &&& blob_action(response@.file_props.suffix) == BlobAction::Ready
                    &&& blob_content(data@, response@.file_props.suffix) == Err::<
                        Seq<char>,
                        Seq<char>,
                    >(message@)
                },
            },
    {
        let kind = Self::kind_of_suffix(response.file_props.suffix.as_str());
        match kind {
            Kind::Image => {
                let content = if same_text(response.file_props.suffix.as_str(), SUFFIX_SVG) {
                    match strict_text(data) {
                        Ok(text) => text,
                        Err(message) => {
                            return Err(message);
                        },
                    }
                } else {
                    Utils::generate_image(data.clone())
                };
                Ok((BlobAction::Ready, Self::prepare_response(response, Some(content), TYPE_IMAGE)))
            },
            Kind::Document => Ok((BlobAction::Document, response)),
            Kind::Spreadsheet => Ok((BlobAction::Spreadsheet, response)),
            _ => {
                proof {
                    reveal_strlit("");
                }
                let content = decode_lossy(data);
                let res = Self::prepare_response(response, Some(content), "");
                assert(""@ =~= Seq::<char>::empty());
                Ok((BlobAction::Ready, res))
            },
        }
    }

    /// Whether a file of mode `mode` counts as executable under `policy`.
    pub fn is_executable(policy: ExecutablePolicy, mode: u32) -> (executable: bool)
        ensures
            executable == counts_as_executable(policy, mode),
    {
        match policy {
            ExecutablePolicy::Disabled => false,
            ExecutablePolicy::ExecuteBits => mode & 0o111 != 0,
        }
    }

    /// Describes the file at `file_path` from what was read about it.
    pub fn prepare_file_props(file_path: &str, stat: &FileStat, policy: ExecutablePolicy) -> (props:
        FileProps)
        ensures
            props@ == props_of(file_path@, stat.size, stat.modified@, stat.mode, policy),
    {
        let mut props = FileProps::default();
        props.path = file_path.to_owned();
        props.size = FileUtils::convert_size(stat.size);
        props.old_size = stat.size;
        props.modified = stat.modified.clone();
        props.permissions = FileUtils::format_permissions(stat.mode);
        props.executable = Self::is_executable(policy, stat.mode);
        props
    }

    /// Takes up a file on disk: fills its metadata into the manifest and
    /// says what is to be done with it. An executable file is turned away
    /// with a message and the manifest is otherwise left as it was.
    pub fn prepare_json(
        file_path: &str,
        stat: &FileStat,
        policy: ExecutablePolicy,
        response: HttpResponse,
    ) -> (r: (JsonAction, HttpResponse))
        ensures
            r.0 == json_action(
                counts_as_executable(policy, stat.mode),
                stat.is_directory,
                response@.file_props.suffix,
            ),
            r.1@ == json_response(
                file_path@,
                stat.size,
                stat.modified@,
                stat.mode,
                policy,
                response@,
            ),
    {
        let mut res = response;
        let mut file_props = Self::prepare_file_props(file_path, stat, policy);
        if file_props.executable {
            let head = join_text("the `", file_path);
            res.error = join_text(head.as_str(), "` file is an executable file !");
            assert(res.error@ =~= blocked_message(file_path@));
            return (JsonAction::Blocked, res);
        }
        file_props.name = res.file_props.name.clone();
        file_props.suffix = res.file_props.suffix.clone();
        file_props.prefix = res.file_props.prefix.clone();
        res.file_props = file_props;
        if stat.is_directory {
            return (JsonAction::Directory, res);
        }
        let kind = Self::kind_of_suffix(res.file_props.suffix.as_str());
        match kind {
            Kind::Document | Kind::Spreadsheet | Kind::Archive => (JsonAction::CompareCache, res),
            _ => (JsonAction::PrepareFile, res),
        }
    }

    /// Takes up the file called `filename` that lies at `file_path`. No file
    /// is turned away as executable.
    pub fn exec_by_file_path(filename: &str, file_path: &str, stat: &FileStat) -> (r: (
        JsonAction,
        HttpResponse,
    ))
        ensures
            r.0 == json_action(false, stat.is_directory, file_suffix(filename@)),
            r.1@ == json_response(
                file_path@,
                stat.size,
                stat.modified@,
                stat.mode,
                ExecutablePolicy::Disabled,
                initial_response(filename@),
            ),
    {
        let response = Self::get_response(filename);
        Self::prepare_json(file_path, stat, ExecutablePolicy::Disabled, response)
    }

    /// Says how a file on disk is previewed afresh: an archive is unpacked,
    /// anything else is read and shown.
    pub fn prepare_file(response: &HttpResponse) -> (action: FileAction)
        ensures
            action == if archive_suffixes().contains(response@.file_props.suffix) {
                FileAction::Extract
            } else {
                FileAction::ReadBlob
            },
    {
        if list_contains(&archive_suffix_list(), response.file_props.suffix.as_str()) {
            FileAction::Extract
        } else {
            FileAction::ReadBlob
        }
    }

    /// Lays out how a finished preview is stored in the directory
    /// `temp_dir`: the copy of the file comes first, the manifest last.
    pub fn copy_write_to_file(temp_dir: &str, response: &HttpResponse) -> (steps: Vec<StoreStep>)
        ensures
            steps@.map_values(|s: StoreStep| s@) == store_steps(temp_dir@, response@.file_props.path),
    {
        let mut steps: Vec<StoreStep> = Vec::new();
        steps.push(
            StoreStep::CopySource {
                from: response.file_props.path.clone(),
                into: temp_dir.to_owned(),
            },
        );
        steps.push(StoreStep::WriteManifest { path: FileUtils::join_path(temp_dir, PREVIEW_FILE) });
        assert(steps@.map_values(|s: StoreStep| s@) =~= store_steps(
            temp_dir@,
            response@.file_props.path,
        ));
        steps
    }

    /// Decides whether the preview stored for a file is used.
    ///
    /// `source` is the content of the file, `copy` the content of the copy
    /// that was stored with the preview, `manifest` the text of the stored
    /// manifest; the last two are `None` when nothing is stored.
    pub fn compare_file(source: &Vec<u8>, copy: Option<&Vec<u8>>, manifest: Option<&str>) -> (r:
        CacheDecision)
        ensures
            r == if cache_hit(
                source@,
                match copy {
                    Some(bytes) => Some(bytes@),
                    None => None,
                },
                match manifest {
                    Some(text) => Some(text@),
                    None => None,
                },
            ) {
                CacheDecision::Reuse
            } else {
                CacheDecision::Rebuild
            },
            // A file that has not changed since its preview was stored is
            // served from the store.
            copy is Some && copy->0@ == source@ && source@.len() > 0 && manifest is Some
                && manifest->0@.len() > 0 ==> r == CacheDecision::Reuse,
            // A file whose content hashes to another value than the stored
            // copy is never served from the store.
            copy is Some && content_hash(copy->0@) != content_hash(source@) ==> r
                == CacheDecision::Rebuild,
    {
        let stored = match copy {
            Some(bytes) => bytes,
            None => {
                return CacheDecision::Rebuild;
            },
        };
        let hash = FileUtils::get_file_hash(source);
        let temp_hash = FileUtils::get_file_hash(stored);
        if hash.as_str().is_empty() || temp_hash.as_str().is_empty() {
            return CacheDecision::Rebuild;
        }
        if !same_text(hash.as_str(), temp_hash.as_str()) {
            return CacheDecision::Rebuild;
        }
        match manifest {
            Some(text) => {
                if text.is_empty() {
                    CacheDecision::Rebuild
                } else {
                    CacheDecision::Reuse
                }
            },
            None => CacheDecision::Rebuild,
        }
    }
}

} // verus!
