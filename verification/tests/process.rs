use quick_look::config::{image_suffix_list, FileProps, HttpResponse};
use quick_look::process::{
    BlobAction, CacheDecision, ExecutablePolicy, FileAction, FileStat, JsonAction, Process,
    StoreStep,
};
use quick_look::utils::Utils;

fn stat(size: u64, mode: u32, is_directory: bool) -> FileStat {
    FileStat { size, modified: "2024/05/06 07:08".to_string(), mode, is_directory }
}

#[test]
fn response_starts_not_ready_with_the_names_filled_in() {
    let response = Process::get_response("report.final.PDF");
    assert_eq!(response.code, 500);
    assert_eq!(response.file_props.name, "report.final.PDF");
    assert_eq!(response.file_props.suffix, "pdf");
    assert_eq!(response.file_props.prefix, "report.final");
    assert_eq!(response.body, "");
    assert_eq!(response.error, "");
    assert!(response.headers.is_empty());
    assert!(response.file_props.files.is_empty());
}

#[test]
fn response_for_a_name_without_dot() {
    let response = Process::get_response("README");
    assert_eq!(response.file_props.suffix, "readme");
    assert_eq!(response.file_props.prefix, "README");
}

#[test]
fn finished_image_lists_its_siblings() {
    let response = Process::get_response("a.png");
    let res = Process::prepare_response(response, Some("body".to_string()), "image");
    assert_eq!(res.code, 200);
    assert_eq!(res.body, "body");
    assert_eq!(res.suffix_props.name, "png");
    assert_eq!(res.suffix_props._type, "image");
    assert_eq!(res.suffix_props.list, image_suffix_list());
}

#[test]
fn finished_without_content_keeps_the_body() {
    let mut response = Process::get_response("a.txt");
    response.body = "kept".to_string();
    let res = Process::prepare_response(response, None, "dir");
    assert_eq!(res.code, 200);
    assert_eq!(res.body, "kept");
    assert_eq!(res.suffix_props._type, "dir");
    assert!(res.suffix_props.list.is_empty());
}

#[test]
fn image_bytes_become_a_data_uri() {
    let data = vec![0x89, b'P', b'N', b'G'];
    let (action, res) = Process::prepare_blob(&data, Process::get_response("a.png")).unwrap();
    assert_eq!(action, BlobAction::Ready);
    assert_eq!(res.code, 200);
    assert_eq!(res.body, "data:image/png;base64,iVBORw==");
    assert_eq!(res.body, Utils::generate_image(data));
    assert_eq!(res.suffix_props._type, "image");
}

#[test]
fn vector_image_is_shown_as_text() {
    let data = "<svg>ü</svg>".as_bytes().to_vec();
    let (action, res) = Process::prepare_blob(&data, Process::get_response("a.svg")).unwrap();
    assert_eq!(action, BlobAction::Ready);
    assert_eq!(res.body, "<svg>ü</svg>");
    assert_eq!(res.suffix_props._type, "image");
    assert_eq!(res.suffix_props.list.len(), 11);
}

#[test]
fn vector_image_that_is_not_utf8_is_an_error() {
    let data = vec![b'<', 0xff, b'>'];
    let err = Process::prepare_blob(&data, Process::get_response("a.svg")).unwrap_err();
    assert_eq!(err, String::from_utf8(data).unwrap_err().to_string());
    assert_eq!(err, "invalid utf-8 sequence of 1 bytes from index 1");
}

#[test]
fn other_bytes_are_decoded_with_replacement() {
    let data = vec![b'o', b'k', 0xff, b'!'];
    let (action, res) = Process::prepare_blob(&data, Process::get_response("notes.txt")).unwrap();
    assert_eq!(action, BlobAction::Ready);
    assert_eq!(res.code, 200);
    assert_eq!(res.body, "ok\u{fffd}!");
    assert_eq!(res.suffix_props._type, "");
    assert_eq!(res.suffix_props.name, "txt");
    assert!(res.suffix_props.list.is_empty());
}

#[test]
fn byte_order_mark_is_dropped_from_text() {
    let data = vec![0xef, 0xbb, 0xbf, b'h', b'i'];
    let (_, res) = Process::prepare_blob(&data, Process::get_response("notes.txt")).unwrap();
    assert_eq!(res.body, "hi");
    let utf16 = vec![0xff, 0xfe, b'h', 0, b'i', 0];
    let (_, res) = Process::prepare_blob(&utf16, Process::get_response("notes.txt")).unwrap();
    assert_eq!(res.body, "hi");
}

#[test]
fn documents_and_sheets_are_handed_on() {
    let response = Process::get_response("a.pdf");
    let (action, res) = Process::prepare_blob(&vec![1, 2, 3], response.clone()).unwrap();
    assert_eq!(action, BlobAction::Document);
    assert_eq!(res, response);
    let response = Process::get_response("a.xlsx");
    let (action, res) = Process::prepare_blob(&vec![1, 2, 3], response.clone()).unwrap();
    assert_eq!(action, BlobAction::Spreadsheet);
    assert_eq!(res, response);
}

#[test]
fn executable_flag_follows_the_policy() {
    assert!(!Process::is_executable(ExecutablePolicy::Disabled, 0o755));
    assert!(!Process::is_executable(ExecutablePolicy::Disabled, 0o644));
    assert!(Process::is_executable(ExecutablePolicy::ExecuteBits, 0o755));
    assert!(Process::is_executable(ExecutablePolicy::ExecuteBits, 0o001));
    assert!(!Process::is_executable(ExecutablePolicy::ExecuteBits, 0o644));
}

#[test]
fn file_props_are_filled_from_the_stat() {
    let props =
        Process::prepare_file_props("/x/a.bin", &stat(1536, 0o100754, false), ExecutablePolicy::Disabled);
    assert_eq!(props.path, "/x/a.bin");
    assert_eq!(props.size, "1.50 KB");
    assert_eq!(props.old_size, 1536);
    assert_eq!(props.modified, "2024/05/06 07:08");
    assert_eq!(props.permissions, "rwxr-xr--");
    assert!(!props.executable);
    assert_eq!(props.name, "");
    assert!(props.files.is_empty());
}

#[test]
fn executable_file_is_turned_away_when_the_policy_says_so() {
    let response = Process::get_response("run.sh");
    let (action, res) = Process::prepare_json(
        "/bin/run.sh",
        &stat(10, 0o755, false),
        ExecutablePolicy::ExecuteBits,
        response,
    );
    assert_eq!(action, JsonAction::Blocked);
    assert_eq!(res.error, "the `/bin/run.sh` file is an executable file !");
    assert_eq!(res.code, 500);
    assert_eq!(res.file_props.path, "");
}

#[test]
fn file_on_disk_is_routed_by_what_it_is() {
    let go = |name: &str, is_dir: bool| {
        Process::exec_by_file_path(name, "/data/item", &stat(5, 0o755, is_dir))
    };
    assert_eq!(go("folder", true).0, JsonAction::Directory);
    assert_eq!(go("a.zip", true).0, JsonAction::Directory);
    assert_eq!(go("a.zip", false).0, JsonAction::CompareCache);
    assert_eq!(go("a.tar.xz", false).0, JsonAction::CompareCache);
    assert_eq!(go("a.pdf", false).0, JsonAction::CompareCache);
    assert_eq!(go("a.xlsx", false).0, JsonAction::CompareCache);
    assert_eq!(go("a.png", false).0, JsonAction::PrepareFile);
    assert_eq!(go("a.txt", false).0, JsonAction::PrepareFile);
    let (_, res) = go("a.txt", false);
    assert_eq!(res.file_props.name, "a.txt");
    assert_eq!(res.file_props.suffix, "txt");
    assert_eq!(res.file_props.prefix, "a");
    assert_eq!(res.file_props.path, "/data/item");
    assert_eq!(res.file_props.size, "5 bytes");
    assert_eq!(res.file_props.permissions, "rwxr-xr-x");
    assert!(!res.file_props.executable);
    assert_eq!(res.code, 500);
}

#[test]
fn archives_are_unpacked_and_other_files_read() {
    assert_eq!(Process::prepare_file(&Process::get_response("a.rar")), FileAction::Extract);
    assert_eq!(Process::prepare_file(&Process::get_response("a.tar.xz")), FileAction::Extract);
    assert_eq!(Process::prepare_file(&Process::get_response("a.pdf")), FileAction::ReadBlob);
    assert_eq!(Process::prepare_file(&Process::get_response("a")), FileAction::ReadBlob);
}

#[test]
fn unchanged_file_is_served_from_the_store() {
    let source = b"the same bytes".to_vec();
    let copy = source.clone();
    assert_eq!(
        Process::compare_file(&source, Some(&copy), Some("{\"code\":200}")),
        CacheDecision::Reuse
    );
}

#[test]
fn builder_runs_once_for_an_unchanged_file() {
    let source = b"archive bytes".to_vec();
    let mut stored: Option<(Vec<u8>, String)> = None;
    let mut builds = 0;
    let mut manifests = Vec::new();
    for _ in 0..2 {
        let decision = match &stored {
            Some((copy, manifest)) => Process::compare_file(&source, Some(copy), Some(manifest)),
            None => Process::compare_file(&source, None, None),
        };
        let manifest = match decision {
            CacheDecision::Reuse => stored.as_ref().unwrap().1.clone(),
            CacheDecision::Rebuild => {
                builds += 1;
                let built = format!("manifest of {} bytes", source.len());
                stored = Some((source.clone(), built.clone()));
                built
            }
        };
        manifests.push(manifest);
    }
    assert_eq!(builds, 1);
    assert_eq!(manifests[0], manifests[1]);
}

#[test]
fn changed_bytes_force_a_rebuild() {
    let before = b"same length A".to_vec();
    let after = b"same length B".to_vec();
    assert_eq!(before.len(), after.len());
    assert_eq!(
        Process::compare_file(&after, Some(&before), Some("{\"code\":200}")),
        CacheDecision::Rebuild
    );
}

#[test]
fn nothing_stored_means_rebuild() {
    let source = b"bytes".to_vec();
    assert_eq!(Process::compare_file(&source, None, Some("{}")), CacheDecision::Rebuild);
    assert_eq!(Process::compare_file(&source, Some(&source), None), CacheDecision::Rebuild);
    assert_eq!(Process::compare_file(&source, Some(&source), Some("")), CacheDecision::Rebuild);
}

#[test]
fn empty_files_are_never_served_from_the_store() {
    let empty = Vec::new();
    assert_eq!(Process::compare_file(&empty, Some(&empty), Some("{}")), CacheDecision::Rebuild);
    let source = b"bytes".to_vec();
    assert_eq!(Process::compare_file(&source, Some(&empty), Some("{}")), CacheDecision::Rebuild);
}

#[test]
fn file_name_is_percent_decoded() {
    assert_eq!(Process::get_filename(Some("a%20b.txt")), Ok("a b.txt".to_string()));
    assert_eq!(Process::get_filename(Some("%E6%96%87%E4%BB%B6.zip")), Ok("文件.zip".to_string()));
    assert_eq!(Process::get_filename(Some("plain.txt")), Ok("plain.txt".to_string()));
    assert_eq!(Process::get_filename(Some("a+b")), Ok("a+b".to_string()));
}

#[test]
fn missing_file_name_is_an_error() {
    assert_eq!(Process::get_filename(None), Err("`fileName` not in headers !".to_string()));
}

#[test]
fn file_name_that_decodes_to_bad_utf8_is_an_error() {
    let err = Process::get_filename(Some("%ff")).unwrap_err();
    assert_eq!(err, "invalid utf-8 sequence of 1 bytes from index 0");
}

#[test]
fn manifest_copies_are_equal() {
    let mut response = Process::get_response("a.zip");
    response.headers.push(("k".to_string(), "v".to_string()));
    let mut child = FileProps::default();
    child.name = "x".to_string();
    child.files.push(FileProps::default());
    response.file_props.files.push(child);
    let copy: HttpResponse = response.clone();
    assert_eq!(copy, response);
}

#[test]
fn request_for_a_path_needs_the_path() {
    assert_eq!(Process::prepare(None, None), Err("`fileName` not in headers !".to_string()));
    assert_eq!(Process::prepare(Some(""), None), Err("`fileName` not in headers !".to_string()));
    assert_eq!(Process::prepare(None, Some("x")), Err("`fileName` not in headers !".to_string()));
}

#[test]
fn history_is_kept_unless_a_type_is_stated() {
    assert_eq!(Process::prepare(Some("/a/b.txt"), None), Ok(true));
    assert_eq!(Process::prepare(Some("/a/b.txt"), Some("")), Ok(true));
    assert_eq!(Process::prepare(Some("/a/b.txt"), Some("archive")), Ok(false));
}

#[test]
fn copy_is_stored_before_the_manifest() {
    let mut response = Process::get_response("pkg.zip");
    response.file_props.path = "/home/u/pkg.zip".to_string();
    assert_eq!(
        Process::copy_write_to_file("/data/QuickLook/pkg", &response),
        vec![
            StoreStep::CopySource {
                from: "/home/u/pkg.zip".to_string(),
                into: "/data/QuickLook/pkg".to_string(),
            },
            StoreStep::WriteManifest { path: "/data/QuickLook/pkg/preview.json".to_string() },
        ]
    );
}
