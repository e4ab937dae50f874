use quick_look::archive::{Archive, ArchiveKind, UnarchiveFacts};
use quick_look::config::{archive_suffix_list, FileProps, HttpResponse};
use quick_look::process::Process;
use quick_look::tree::DirEntry;

fn entry(path: &str, is_directory: bool, size: u64) -> DirEntry {
    let mut props = FileProps::default();
    props.size = format!("{} bytes", size);
    props.old_size = size;
    let file_name = path.rsplit('/').next().unwrap().to_string();
    DirEntry { path: path.to_string(), file_name, is_directory, props }
}

fn facts() -> UnarchiveFacts {
    UnarchiveFacts {
        archive_exists: true,
        archive_is_directory: false,
        unpacked_exists: true,
        parent: Some("/home/u/Downloads".to_string()),
        parent_exists: true,
    }
}

#[test]
fn labels_of_the_archive_kinds() {
    assert_eq!(Archive::label(ArchiveKind::Zip), "ZIP Archive");
    assert_eq!(Archive::label(ArchiveKind::Bz2), "BZ2 Archive");
    assert_eq!(Archive::label(ArchiveKind::Tar), "TAR Archive");
    assert_eq!(Archive::label(ArchiveKind::Rar), "Rar Archive");
    assert_eq!(Archive::label(ArchiveKind::TarXz), "XZ Archive");
    assert_eq!(Archive::label(ArchiveKind::Xz), "XZ Archive");
    assert_eq!(Archive::label(ArchiveKind::SevenZ), "7Z Archive");
}

#[test]
fn unpacked_archive_becomes_a_manifest() {
    let mut response = Process::get_response("pkg.zip");
    response.file_props.size = "1.00 KB".to_string();
    response.file_props.path = "/home/u/pkg.zip".to_string();
    let entries = vec![
        entry("/cache/pkg/pkg", true, 0),
        entry("/cache/pkg/pkg/a.txt", false, 1024),
        entry("/cache/pkg/pkg/sub", true, 0),
        entry("/cache/pkg/pkg/sub/b.txt", false, 1024),
    ];
    let res = Archive::decompress(ArchiveKind::Zip, "/cache/pkg", response, &entries).unwrap();
    assert_eq!(res.code, 200);
    assert_eq!(res.file_props.kind, "ZIP Archive");
    assert_eq!(res.file_props.packed, "1.00 KB");
    assert_eq!(res.file_props.size, "2.00 KB");
    assert_eq!(res.file_props.full_path, "/cache/pkg");
    assert_eq!(res.file_props.path, "/home/u/pkg.zip");
    assert_eq!(res.file_props.name, "pkg.zip");
    let top: Vec<&str> = res.file_props.files.iter().map(|f| f.name.as_str()).collect();
    assert_eq!(top, vec!["a.txt", "sub"]);
    assert_eq!(res.file_props.files[1].files[0].name, "b.txt");
    assert_eq!(res.suffix_props.name, "zip");
    assert_eq!(res.suffix_props._type, "archive");
    assert_eq!(res.suffix_props.list, archive_suffix_list());
    assert_eq!(res.error, "");
}

#[test]
fn archive_too_large_to_count_is_refused() {
    let response = Process::get_response("pkg.zip");
    let entries = vec![entry("/c/a", false, u64::MAX), entry("/c/b", false, 1)];
    assert_eq!(
        Archive::decompress(ArchiveKind::Zip, "/c", response, &entries),
        Err("the total size of the files is too large".to_string())
    );
}

#[test]
fn copy_goes_to_the_directory_of_the_archive() {
    let (to, res) = Archive::unarchive("/home/u/Downloads/a.zip", &facts());
    assert_eq!(to, Some("/home/u/Downloads".to_string()));
    assert_eq!(res.code, 200);
    assert_eq!(res.error, "");
}

#[test]
fn copy_is_refused_when_a_path_is_missing() {
    let mut f = facts();
    f.archive_exists = false;
    let (to, res) = Archive::unarchive("/home/u/Downloads/a.zip", &f);
    assert_eq!(to, None);
    assert_eq!(res.error, "文件解压失败, 路径不存在!");
    assert_eq!(res.code, 0);
    let mut f = facts();
    f.unpacked_exists = false;
    assert_eq!(Archive::unarchive("/x/a.zip", &f).1.error, "文件解压失败, 路径不存在!");
}

#[test]
fn copy_is_refused_for_a_directory() {
    let mut f = facts();
    f.archive_is_directory = true;
    let (to, res) = Archive::unarchive("/home/u/dir", &f);
    assert_eq!(to, None);
    assert_eq!(res.error, "/home/u/dir is a directory !");
}

#[test]
fn copy_is_refused_without_a_parent() {
    let mut f = facts();
    f.parent = None;
    assert_eq!(Archive::unarchive("/", &f).1.error, "文件解压失败, 父路径不存在!");
    let mut f = facts();
    f.parent_exists = false;
    let (to, res) = Archive::unarchive("/gone/a.zip", &f);
    assert_eq!(to, None);
    assert_eq!(res.error, "文件解压失败, 父路径不存在!");
    assert_eq!(res, HttpResponse { error: res.error.clone(), ..HttpResponse::default() });
}

#[test]
fn single_compressed_files_are_written_under_their_own_name() {
    let response = Process::get_response("notes.txt.bz2");
    assert_eq!(
        Archive::single_file_name(ArchiveKind::Bz2, &response),
        Some("notes.txt".to_string())
    );
    let response = Process::get_response("a.bz2.b.bz2");
    assert_eq!(Archive::single_file_name(ArchiveKind::Bz2, &response), Some("a.b".to_string()));
    assert_eq!(
        Archive::single_file_name(ArchiveKind::Bz2, &response),
        Some("a.bz2.b.bz2".replace(".bz2", ""))
    );
    let response = Process::get_response("dump.sql.xz");
    assert_eq!(Archive::single_file_name(ArchiveKind::Xz, &response), Some("dump.sql".to_string()));
    assert_eq!(Archive::single_file_name(ArchiveKind::Zip, &response), None);
    assert_eq!(Archive::single_file_name(ArchiveKind::TarXz, &response), None);
}
