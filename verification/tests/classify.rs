use quick_look::archive::{Archive, ArchiveKind};
use quick_look::config::{
    archive_suffix_list, document_suffix_list, excel_suffix_list, image_suffix_list,
};
use quick_look::process::{Kind, Process};

fn decoder_for(name: &str) -> Option<ArchiveKind> {
    let response = Process::get_response(name);
    Archive::with_file_reader(response).0
}

#[test]
fn every_archive_suffix_is_an_archive() {
    for suffix in archive_suffix_list() {
        let name = format!("bundle.{}", suffix);
        let (_, kind) = Process::classify(&name);
        assert_eq!(kind, Kind::Archive, "{}", name);
        assert_eq!(Process::kind_of_suffix(&suffix), Kind::Archive, "{}", suffix);
    }
}

#[test]
fn archive_suffixes_choose_their_decoders() {
    assert_eq!(decoder_for("a.zip"), Some(ArchiveKind::Zip));
    assert_eq!(decoder_for("a.bz2"), Some(ArchiveKind::Bz2));
    assert_eq!(decoder_for("a.gz"), Some(ArchiveKind::Tar));
    assert_eq!(decoder_for("a.zlib"), Some(ArchiveKind::Tar));
    assert_eq!(decoder_for("a.tar"), Some(ArchiveKind::Tar));
    assert_eq!(decoder_for("a.tgz"), Some(ArchiveKind::Tar));
    assert_eq!(decoder_for("a.rar"), Some(ArchiveKind::Rar));
    assert_eq!(decoder_for("a.7z"), Some(ArchiveKind::SevenZ));
    assert_eq!(decoder_for("a.xz"), Some(ArchiveKind::Xz));
    assert_eq!(decoder_for("a.tar.xz"), Some(ArchiveKind::TarXz));
}

#[test]
fn two_stage_suffix_wins_over_its_last_stage() {
    let (suffix, kind) = Process::classify("backup.tar.xz");
    assert_eq!(suffix, "xz");
    assert_eq!(kind, Kind::Archive);
    assert_eq!(decoder_for("backup.tar.xz"), Some(ArchiveKind::TarXz));
    assert_eq!(decoder_for("backup.xz"), Some(ArchiveKind::Xz));
    assert_eq!(decoder_for("backup.tar.gz"), Some(ArchiveKind::Tar));
}

#[test]
fn suffixes_are_matched_in_lower_case() {
    assert_eq!(decoder_for("A.ZIP"), Some(ArchiveKind::Zip));
    assert_eq!(Process::classify("PHOTO.JPEG"), ("jpeg".to_string(), Kind::Image));
    // the two-stage name is looked for as it is written
    assert_eq!(decoder_for("A.TAR.XZ"), Some(ArchiveKind::Xz));
}

#[test]
fn images_documents_and_sheets_are_told_apart() {
    for suffix in image_suffix_list() {
        assert_eq!(Process::classify(&format!("x.{}", suffix)).1, Kind::Image);
    }
    for suffix in document_suffix_list() {
        assert_eq!(Process::classify(&format!("x.{}", suffix)).1, Kind::Document);
    }
    for suffix in excel_suffix_list() {
        assert_eq!(Process::classify(&format!("x.{}", suffix)).1, Kind::Spreadsheet);
    }
}

#[test]
fn anything_else_is_unknown() {
    assert_eq!(Process::classify("notes.txt"), ("txt".to_string(), Kind::Unknown));
    assert_eq!(Process::classify("Makefile"), ("makefile".to_string(), Kind::Unknown));
    assert_eq!(Process::classify(""), ("".to_string(), Kind::Unknown));
    assert_eq!(Process::classify("archive.zip.part"), ("part".to_string(), Kind::Unknown));
}

#[test]
fn unsupported_archive_takes_a_message() {
    let response = Process::get_response("notes.txt");
    let (kind, res) = Archive::with_file_reader(response);
    assert_eq!(kind, None);
    assert_eq!(res.error, "读取压缩包失败, 不支持的格式");
    assert_eq!(res.code, 500);
    assert_eq!(res.file_props.name, "notes.txt");
}

#[test]
fn suffix_tables_hold_what_they_should() {
    assert_eq!(
        image_suffix_list(),
        vec!["jpeg", "jpg", "png", "gif", "tiff", "tif", "webp", "ico", "heic", "bmp", "svg"]
    );
    assert_eq!(document_suffix_list(), vec!["pdf", "doc", "docx", "ppt", "pptx"]);
    assert_eq!(excel_suffix_list(), vec!["xls", "xlsx", "xlsm", "xlsb", "xla", "xlam"]);
    assert_eq!(
        archive_suffix_list(),
        vec!["zip", "bz2", "gz", "zlib", "tar", "rar", "7z", "tar.xz", "xz", "tgz"]
    );
}
