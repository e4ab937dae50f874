//! Archives: choosing the decoder by the file's name, and turning what a
//! decoder left on disk into the manifest.
//!
//! A decoder only unpacks into a directory. What is shown afterwards is
//! built here in the same way for every kind of archive.

use vstd::prelude::*;
use vstd::string::*;
use crate::config::{
    archive_suffix_list, archive_suffixes, lemma_files_view, FilePropsView,
    HttpResponse, HttpResponseView, SuffixProps, SuffixPropsView, CODE_SUCCESS,
};
use crate::process::{kind_of, Kind, Process};
use crate::text::{ends_with, join_text, remove_all, same_text, without};
use crate::tree::{
    entry_views, listing, total_size, DirEntry, MESSAGE_SIZE_OVERFLOW,
};
use crate::utils::file::{size_text, FileUtils};

verus! {

pub struct Archive;

/// The decoders, one for each family of archives.
#[derive(Debug, Clone, Copy, PartialEq, Eq, Structural)]
pub enum ArchiveKind {
    Zip,
    Bz2,
    /// A tar archive, compressed with gzip.
    Tar,
    Rar,
    /// A tar archive, compressed with xz.
    TarXz,
    /// A single file, compressed with xz.
    Xz,
    SevenZ,
}

pub const MESSAGE_UNSUPPORTED: &'static str = "读取压缩包失败, 不支持的格式";

pub const MESSAGE_PATH_MISSING: &'static str = "文件解压失败, 路径不存在!";

pub const MESSAGE_PARENT_MISSING: &'static str = "文件解压失败, 父路径不存在!";

pub const TYPE_ARCHIVE: &'static str = "archive";

/// What a bz2 file has in its name beside the name of what it holds.
pub const BZ2_SUFFIX: &'static str = ".bz2";

/// The end of a file name that marks a tar archive compressed with xz.
pub const TAR_XZ: &'static str = "tar.xz";

/// The decoder for a file called `name` whose suffix is `suffix`, if there
/// is one. The two-stage `tar.xz` is looked for at the end of the whole
/// name, and before the plain `xz` that the suffix alone would suggest.
pub open spec fn archive_kind(name: Seq<char>, suffix: Seq<char>) -> Option<ArchiveKind> {
    if suffix == "zip"@ {
        Some(ArchiveKind::Zip)
    } else if suffix == "bz2"@ {
        Some(ArchiveKind::Bz2)
    } else if suffix == "gz"@ || suffix == "zlib"@ || suffix == "tar"@ || suffix == "tgz"@ {
        Some(ArchiveKind::Tar)
    } else if suffix == "rar"@ {
        Some(ArchiveKind::Rar)
    } else if TAR_XZ@.is_suffix_of(name) {
        Some(ArchiveKind::TarXz)
    } else if suffix == "xz"@ {
        Some(ArchiveKind::Xz)
    } else if suffix == "7z"@ {
        Some(ArchiveKind::SevenZ)
    } else {
        None
    }
}

/// The name under which a kind of archive is shown.
pub open spec fn kind_label(kind: ArchiveKind) -> Seq<char> {
    match kind {
        ArchiveKind::Zip => "ZIP Archive"@,
        ArchiveKind::Bz2 => "BZ2 Archive"@,
        ArchiveKind::Tar => "TAR Archive"@,
        ArchiveKind::Rar => "Rar Archive"@,
        ArchiveKind::TarXz => "XZ Archive"@,
        ArchiveKind::Xz => "XZ Archive"@,
        ArchiveKind::SevenZ => "7Z Archive"@,
    }
}

/// The manifest of an archive of kind `kind` that was unpacked into
/// `unzip_path`, where `files` were found, `size` bytes in all. The size
/// the archive itself had becomes its packed size.
pub open spec fn unpacked(
    response: HttpResponseView,
    kind: ArchiveKind,
    unzip_path: Seq<char>,
    files: Seq<FilePropsView>,
    size: u64,
) -> HttpResponseView {
    HttpResponseView {
        code: CODE_SUCCESS,
        file_props: FilePropsView {
            kind: kind_label(kind),
            packed: response.file_props.size,
            size: size_text(size),
            files,
            full_path: unzip_path,
            ..response.file_props
        },
        suffix_props: SuffixPropsView {
            name: response.file_props.suffix,
            kind: TYPE_ARCHIVE@,
            list: archive_suffixes(),
        },
        ..response
    }
}

/// The name of the one file that the decoder of `kind` writes for the
/// archive called `name`, whose name without suffix is `prefix`. A bz2
/// file gives its name without every `.bz2` in it, an xz file its name
/// without suffix. The other decoders write what the archive names.
pub open spec fn output_name(kind: ArchiveKind, name: Seq<char>, prefix: Seq<char>) -> Option<
    Seq<char>,
> {
    match kind {
        ArchiveKind::Bz2 => Some(without(name, BZ2_SUFFIX@)),
        ArchiveKind::Xz => Some(prefix),
        _ => None,
    }
}

/// What is known about the two paths of a request to copy an unpacked
/// archive next to the archive itself.
#[derive(Debug, PartialEq, Eq)]
pub struct UnarchiveFacts {
    /// Whether the archive exists.
    pub archive_exists: bool,
    /// Whether the archive is a directory.
    pub archive_is_directory: bool,
    /// Whether the directory of unpacked files exists.
    pub unpacked_exists: bool,
    /// The directory that holds the archive, if the path has one.
    pub parent: Option<String>,
    /// Whether that directory exists.
    pub parent_exists: bool,
}

/// The message with which a request to copy is turned down, if it is.
pub open spec fn unarchive_refusal(
    file_path: Seq<char>,
    archive_exists: bool,
    archive_is_directory: bool,
    unpacked_exists: bool,
    parent: Option<Seq<char>>,
    parent_exists: bool,
) -> Option<Seq<char>> {
    if !archive_exists || !unpacked_exists {
        Some(MESSAGE_PATH_MISSING@)
    } else if archive_is_directory {
        Some(file_path + " is a directory !"@)
    } else if parent is None || !parent_exists {
        Some(MESSAGE_PARENT_MISSING@)
    } else {
        None
    }
}

impl Archive {
    /// Chooses the decoder for the archive named in `response`.
    ///
    /// When there is none, the manifest takes a message that says so;
    /// otherwise it is returned as it came.
    pub fn with_file_reader(response: HttpResponse) -> (r: (Option<ArchiveKind>, HttpResponse))
        ensures
            r.0 == archive_kind(response@.file_props.name, response@.file_props.suffix),
            r.0 is Some ==> r.1@ == response@,
            r.0 is None ==> r.1@ == (HttpResponseView {
                error: MESSAGE_UNSUPPORTED@,
                ..response@
            }),
    {
        let suffix = response.file_props.suffix.as_str();
        let kind = if same_text(suffix, "zip") {
            Some(ArchiveKind::Zip)
        } else if same_text(suffix, "bz2") {
            Some(ArchiveKind::Bz2)
        } else if same_text(suffix, "gz") || same_text(suffix, "zlib") || same_text(suffix, "tar")
            || same_text(suffix, "tgz") {
            Some(ArchiveKind::Tar)
        } else if same_text(suffix, "rar") {
            Some(ArchiveKind::Rar)
        } else if ends_with(response.file_props.name.as_str(), TAR_XZ) {
            Some(ArchiveKind::TarXz)
        } else if same_text(suffix, "xz") {
            Some(ArchiveKind::Xz)
        } else if same_text(suffix, "7z") {
            Some(ArchiveKind::SevenZ)
        } else {
            None
        };
        match kind {
            Some(_) => (kind, response),
            None => {
                let mut res = response;
                res.error = MESSAGE_UNSUPPORTED.to_owned();
                (None, res)
            },
        }
    }

    /// The name under which a kind of archive is shown.
    pub fn label(kind: ArchiveKind) -> (out: String)
        ensures
            out@ == kind_label(kind),
    {
        match kind {
            ArchiveKind::Zip => "ZIP Archive".to_owned(),
            ArchiveKind::Bz2 => "BZ2 Archive".to_owned(),
            ArchiveKind::Tar => "TAR Archive".to_owned(),
            ArchiveKind::Rar => "Rar Archive".to_owned(),
            ArchiveKind::TarXz => "XZ Archive".to_owned(),
            ArchiveKind::Xz => "XZ Archive".to_owned(),
            ArchiveKind::SevenZ => "7Z Archive".to_owned(),
        }
    }

    /// The name of the file that a decoder of a single compressed file
    /// writes; `None` for the decoders of archives that name their files
    /// themselves.
    pub fn single_file_name(kind: ArchiveKind, response: &HttpResponse) -> (name: Option<String>)
        ensures
            match name {
                Some(text) => output_name(
                    kind,
                    response@.file_props.name,
                    response@.file_props.prefix,
                ) == Some(text@),
                None => output_name(kind, response@.file_props.name, response@.file_props.prefix)
                    is None,
            },
    {
        match kind {
            ArchiveKind::Bz2 => Some(remove_all(response.file_props.name.as_str(), BZ2_SUFFIX)),
            ArchiveKind::Xz => Some(response.file_props.prefix.clone()),
            _ => None,
        }
    }

    /// Finishes the manifest of an archive once its decoder has unpacked it
    /// into `unzip_path`: `entries` is what was met when that directory
    /// was walked. The files are arranged as a tree, a directory that only
    /// wraps the content under the archive's own name is left out, and the
    /// sizes are filled in.
    ///
    /// Fails only when the bytes of the files do not fit in 64 bits.
    pub fn decompress(
        kind: ArchiveKind,
        unzip_path: &str,
        response: HttpResponse,
        entries: &Vec<DirEntry>,
    ) -> (r: Result<HttpResponse, String>)
        ensures
            r is Ok <==> total_size(entry_views(entries@)) <= u64::MAX,
            r matches Ok(res) ==> res@ == unpacked(
                response@,
                kind,
                unzip_path@,
                listing(entry_views(entries@), unzip_path@, response@.file_props.prefix),
                total_size(entry_views(entries@)) as u64,
            ),
            r matches Err(message) ==> message@ == MESSAGE_SIZE_OVERFLOW@,
    {
        let (files, size) = match Process::read_directory(
            entries,
            unzip_path,
            response.file_props.prefix.as_str(),
        ) {
            Ok(read) => read,
            Err(message) => {
                return Err(message);
            },
        };
        let mut res = response;
        res.code = CODE_SUCCESS;
        res.file_props.kind = Self::label(kind);
        res.file_props.packed = res.file_props.size.clone();
        res.file_props.size = FileUtils::convert_size(size);
        res.file_props.files = files;
        res.file_props.full_path = unzip_path.to_owned();
        res.suffix_props = SuffixProps {
            name: res.file_props.suffix.clone(),
            _type: TYPE_ARCHIVE.to_owned(),
            list: archive_suffix_list(),
        };
        proof {
            lemma_files_view(res.file_props);
        }
        Ok(res)
    }

    /// Answers a request to copy the unpacked files of the archive at
    /// `file_path` into the directory that holds the archive.
    ///
    /// Returns that directory and the manifest to answer with once the
    /// copy is made; or no directory, and a manifest that says why the
    /// request is turned down.
    pub fn unarchive(file_path: &str, facts: &UnarchiveFacts) -> (r: (Option<String>, HttpResponse))
        ensures
            match unarchive_refusal(
                file_path@,
                facts.archive_exists,
                facts.archive_is_directory,
                facts.unpacked_exists,
                match facts.parent {
                    Some(dir) => Some(dir@),
                    None => None,
                },
                facts.parent_exists,
            ) {
                Some(message) => {
                    &&& r.0 is None
                    &&& r.1@ == (HttpResponseView { error: message, ..HttpResponseView::empty() })
                },
                None => {
                    &&& r.0 is Some
                    &&& facts.parent is Some
                    &&& r.0->0@ == facts.parent->0@
                    &&& r.1@ == (HttpResponseView {
                        code: CODE_SUCCESS,
                        ..HttpResponseView::empty()
                    })
                },
            },
    {
        let mut response = HttpResponse::default();
        if !facts.archive_exists || !facts.unpacked_exists {
            response.error = MESSAGE_PATH_MISSING.to_owned();
            return (None, response);
        }
        if facts.archive_is_directory {
            response.error = join_text(file_path, " is a directory !");
            return (None, response);
        }
        match &facts.parent {
            Some(dir) => {
                if !facts.parent_exists {
                    response.error = MESSAGE_PARENT_MISSING.to_owned();
                    return (None, response);
                }
                response.code = CODE_SUCCESS;
                (Some(dir.clone()), response)
            },
            None => {
                response.error = MESSAGE_PARENT_MISSING.to_owned();
                (None, response)
            },
        }
    }
}

/// Every suffix of the archive table is classified as an archive.
pub proof fn lemma_archive_suffixes_are_archives(suffix: Seq<char>)
    requires
        archive_suffixes().contains(suffix),
    ensures
        kind_of(suffix) == Kind::Archive,
{
    reveal_archive_literals();
    reveal_other_literals();
    let table = archive_suffixes();
    let i = choose|i: int| 0 <= i < table.len() && table[i] == suffix;
    assert(table[i] == suffix);
    assert forall|j: int| 0 <= j < crate::config::image_suffixes().len() implies
        crate::config::image_suffixes()[j] != suffix by {
        lemma_differ(crate::config::image_suffixes()[j], suffix);
    }
    assert forall|j: int| 0 <= j < crate::config::document_suffixes().len() implies
        crate::config::document_suffixes()[j] != suffix by {
        lemma_differ(crate::config::document_suffixes()[j], suffix);
    }
    assert forall|j: int| 0 <= j < crate::config::excel_suffixes().len() implies
        crate::config::excel_suffixes()[j] != suffix by {
        lemma_differ(crate::config::excel_suffixes()[j], suffix);
    }
}

/// Two texts that differ in length or in one of their first three
/// characters differ.
proof fn lemma_differ(a: Seq<char>, b: Seq<char>)
    ensures
        a.len() != b.len() ==> a != b,
        a.len() > 0 && b.len() > 0 && a[0] != b[0] ==> a != b,
        a.len() > 1 && b.len() > 1 && a[1] != b[1] ==> a != b,
        a.len() > 2 && b.len() > 2 && a[2] != b[2] ==> a != b,
{
}

proof fn reveal_archive_literals()
    ensures
        "zip"@ == seq!['z', 'i', 'p'],
        "bz2"@ == seq!['b', 'z', '2'],
        "gz"@ == seq!['g', 'z'],
        "zlib"@ == seq!['z', 'l', 'i', 'b'],
        "tar"@ == seq!['t', 'a', 'r'],
        "rar"@ == seq!['r', 'a', 'r'],
        "7z"@ == seq!['7', 'z'],
        "tar.xz"@ == seq!['t', 'a', 'r', '.', 'x', 'z'],
        "xz"@ == seq!['x', 'z'],
        "tgz"@ == seq!['t', 'g', 'z'],
{
    reveal_strlit("zip");
    reveal_strlit("bz2");
    reveal_strlit("gz");
    reveal_strlit("zlib");
    reveal_strlit("tar");
    reveal_strlit("rar");
    reveal_strlit("7z");
    reveal_strlit("tar.xz");
    reveal_strlit("xz");
    reveal_strlit("tgz");
    assert("zip"@ =~= seq!['z', 'i', 'p']);
    assert("bz2"@ =~= seq!['b', 'z', '2']);
    assert("gz"@ =~= seq!['g', 'z']);
    assert("zlib"@ =~= seq!['z', 'l', 'i', 'b']);
    assert("tar"@ =~= seq!['t', 'a', 'r']);
    assert("rar"@ =~= seq!['r', 'a', 'r']);
    assert("7z"@ =~= seq!['7', 'z']);
    assert("tar.xz"@ =~= seq!['t', 'a', 'r', '.', 'x', 'z']);
    assert("xz"@ =~= seq!['x', 'z']);
    assert("tgz"@ =~= seq!['t', 'g', 'z']);
}

proof fn reveal_other_literals()
    ensures
        "jpeg"@ == seq!['j', 'p', 'e', 'g'],
        "jpg"@ == seq!['j', 'p', 'g'],
        "png"@ == seq!['p', 'n', 'g'],
        "gif"@ == seq!['g', 'i', 'f'],
        "tiff"@ == seq!['t', 'i', 'f', 'f'],
        "tif"@ == seq!['t', 'i', 'f'],
        "webp"@ == seq!['w', 'e', 'b', 'p'],
        "ico"@ == seq!['i', 'c', 'o'],
        "heic"@ == seq!['h', 'e', 'i', 'c'],
        "bmp"@ == seq!['b', 'm', 'p'],
        "svg"@ == seq!['s', 'v', 'g'],
        "pdf"@ == seq!['p', 'd', 'f'],
        "doc"@ == seq!['d', 'o', 'c'],
        "docx"@ == seq!['d', 'o', 'c', 'x'],
        "ppt"@ == seq!['p', 'p', 't'],
        "pptx"@ == seq!['p', 'p', 't', 'x'],
        "xls"@ == seq!['x', 'l', 's'],
        "xlsx"@ == seq!['x', 'l', 's', 'x'],
        "xlsm"@ == seq!['x', 'l', 's', 'm'],
        "xlsb"@ == seq!['x', 'l', 's', 'b'],
        "xla"@ == seq!['x', 'l', 'a'],
        "xlam"@ == seq!['x', 'l', 'a', 'm'],
{
    reveal_strlit("jpeg");
    reveal_strlit("jpg");
    reveal_strlit("png");
    reveal_strlit("gif");
    reveal_strlit("tiff");
    reveal_strlit("tif");
    reveal_strlit("webp");
    reveal_strlit("ico");
    reveal_strlit("heic");
    reveal_strlit("bmp");
    reveal_strlit("svg");
    reveal_strlit("pdf");
    reveal_strlit("doc");
    reveal_strlit("docx");
    reveal_strlit("ppt");
    reveal_strlit("pptx");
    reveal_strlit("xls");
    reveal_strlit("xlsx");
    reveal_strlit("xlsm");
    reveal_strlit("xlsb");
    reveal_strlit("xla");
    reveal_strlit("xlam");
    assert("jpeg"@ =~= seq!['j', 'p', 'e', 'g']);
    assert("jpg"@ =~= seq!['j', 'p', 'g']);
    assert("png"@ =~= seq!['p', 'n', 'g']);
    assert("gif"@ =~= seq!['g', 'i', 'f']);
    assert("tiff"@ =~= seq!['t', 'i', 'f', 'f']);
    assert("tif"@ =~= seq!['t', 'i', 'f']);
    assert("webp"@ =~= seq!['w', 'e', 'b', 'p']);
    assert("ico"@ =~= seq!['i', 'c', 'o']);
    assert("heic"@ =~= seq!['h', 'e', 'i', 'c']);
    assert("bmp"@ =~= seq!['b', 'm', 'p']);
    assert("svg"@ =~= seq!['s', 'v', 'g']);
    assert("pdf"@ =~= seq!['p', 'd', 'f']);
    assert("doc"@ =~= seq!['d', 'o', 'c']);
    assert("docx"@ =~= seq!['d', 'o', 'c', 'x']);
    assert("ppt"@ =~= seq!['p', 'p', 't']);
    assert("pptx"@ =~= seq!['p', 'p', 't', 'x']);
    assert("xls"@ =~= seq!['x', 'l', 's']);
    assert("xlsx"@ =~= seq!['x', 'l', 's', 'x']);
    assert("xlsm"@ =~= seq!['x', 'l', 's', 'm']);
    assert("xlsb"@ =~= seq!['x', 'l', 's', 'b']);
    assert("xla"@ =~= seq!['x', 'l', 'a']);
    assert("xlam"@ =~= seq!['x', 'l', 'a', 'm']);
}

/// Every suffix of the archive table has its decoder: `zip`, `bz2`, `rar`
/// and `7z` their own, `gz`, `zlib`, `tar` and `tgz` the one for tar
/// archives. The name matters only where the test for the two-stage name
/// comes first: for `xz`, and for `7z` beside a name that ends in `tar.xz`,
/// which no name with that suffix does.
pub proof fn lemma_archive_suffixes_have_decoders(name: Seq<char>, suffix: Seq<char>)
    requires
        archive_suffixes().contains(suffix),
        suffix != "xz"@,
        suffix != TAR_XZ@,
        suffix == "7z"@ ==> !TAR_XZ@.is_suffix_of(name),
    ensures
        archive_kind(name, suffix) == Some(
            if suffix == "zip"@ {
                ArchiveKind::Zip
            } else if suffix == "bz2"@ {
                ArchiveKind::Bz2
            } else if suffix == "rar"@ {
                ArchiveKind::Rar
            } else if suffix == "7z"@ {
                ArchiveKind::SevenZ
            } else {
                ArchiveKind::Tar
            },
        ),
{
    reveal_archive_literals();
    let table = archive_suffixes();
    let i = choose|i: int| 0 <= i < table.len() && table[i] == suffix;
    assert(table[i] == suffix);
}

/// A name that ends in `tar.xz` is taken for a tar archive compressed with
/// xz, not for the single compressed file that its suffix `xz` alone names.
pub proof fn lemma_two_stage_before_single_stage(name: Seq<char>)
    requires
        TAR_XZ@.is_suffix_of(name),
    ensures
        archive_kind(name, "xz"@) == Some(ArchiveKind::TarXz),
        kind_of("xz"@) == Kind::Archive,
{
    reveal_archive_literals();
    assert(archive_suffixes()[8] == "xz"@);
    lemma_archive_suffixes_are_archives("xz"@);
}

/// A name with the suffix `xz` that does not end in `tar.xz` is a single
/// compressed file.
pub proof fn lemma_single_stage_xz(name: Seq<char>)
    requires
        !TAR_XZ@.is_suffix_of(name),
    ensures
        archive_kind(name, "xz"@) == Some(ArchiveKind::Xz),
{
    reveal_archive_literals();
}

} // verus!
