use quick_look::utils::file::FileUtils;

#[test]
fn size_of_nothing_is_zero_bytes() {
    assert_eq!(FileUtils::convert_size(0), "0 bytes");
}

#[test]
fn size_at_the_first_threshold_is_one_kb() {
    assert_eq!(FileUtils::convert_size(1024), "1.00 KB");
}

#[test]
fn size_at_the_second_threshold_is_one_mb() {
    assert_eq!(FileUtils::convert_size(1_048_576), "1.00 MB");
}

#[test]
fn size_at_the_third_threshold_is_one_gb() {
    assert_eq!(FileUtils::convert_size(1_073_741_824), "1.00 GB");
}

fn float_form(size: u64) -> String {
    if size >= 1024 * 1024 * 1024 {
        format!("{:.2} GB", size as f64 / (1024.0 * 1024.0 * 1024.0))
    } else if size >= 1024 * 1024 {
        format!("{:.2} MB", size as f64 / (1024.0 * 1024.0))
    } else if size >= 1024 {
        format!("{:.2} KB", size as f64 / 1024.0)
    } else {
        format!("{} bytes", size)
    }
}

#[test]
fn sizes_agree_with_floating_point_formatting() {
    let mut size: u64 = 1;
    let mut step: u64 = 1;
    while size < u64::MAX / 3 {
        assert_eq!(FileUtils::convert_size(size), float_form(size), "size {}", size);
        assert_eq!(FileUtils::convert_size(size - 1), float_form(size - 1), "size {}", size - 1);
        assert_eq!(FileUtils::convert_size(size + 1), float_form(size + 1), "size {}", size + 1);
        step = step.wrapping_mul(6364136223846793005).wrapping_add(1442695040888963407);
        size = size + size / 3 + (step >> 60) + 1;
    }
    for size in [u64::MAX, u64::MAX - 1, u64::MAX - 1023, u64::MAX - 1024, 1 << 63, (1 << 63) + 1024, (1 << 63) + 1025, (1 << 53) + 1, (1 << 53) + 3, (1 << 54) + 2, (1 << 54) + 6] {
        assert_eq!(FileUtils::convert_size(size), float_form(size), "size {}", size);
    }
}

#[test]
fn ties_go_to_the_even_hundredth() {
    // 1152 / 1024 = 1.125 exactly
    assert_eq!(FileUtils::convert_size(1152), "1.12 KB");
    // 1408 / 1024 = 1.375 exactly
    assert_eq!(FileUtils::convert_size(1408), "1.38 KB");
    for k in 0..4096u64 {
        let size = 1024 + k * 128;
        assert_eq!(FileUtils::convert_size(size), float_form(size), "size {}", size);
    }
}

#[test]
fn permissions_of_common_modes() {
    assert_eq!(FileUtils::format_permissions(0o755), "rwxr-xr-x");
    assert_eq!(FileUtils::format_permissions(0o644), "rw-r--r--");
    assert_eq!(FileUtils::format_permissions(0o000), "---------");
    assert_eq!(FileUtils::format_permissions(0o777), "rwxrwxrwx");
    assert_eq!(FileUtils::format_permissions(0o100644), "rw-r--r--");
}

#[test]
fn mode_part_renders_three_bits() {
    assert_eq!(FileUtils::format_mode_part(0), "---");
    assert_eq!(FileUtils::format_mode_part(0o5), "r-x");
    assert_eq!(FileUtils::format_mode_part(0o7), "rwx");
    assert_eq!(FileUtils::format_mode_part(0o2), "-w-");
}

#[test]
fn suffix_is_the_last_segment_in_lower_case() {
    assert_eq!(FileUtils::get_file_suffix("photo.JPG"), "jpg");
    assert_eq!(FileUtils::get_file_suffix("a.tar.xz"), "xz");
    assert_eq!(FileUtils::get_file_suffix("archive.Tar.GZ"), "gz");
    assert_eq!(FileUtils::get_file_suffix("trailing."), "");
    assert_eq!(FileUtils::get_file_suffix(""), "");
}

#[test]
fn name_without_dot_is_its_own_suffix() {
    assert_eq!(FileUtils::get_file_suffix("Makefile"), "makefile");
    assert_eq!(FileUtils::get_file_prefix("Makefile"), "Makefile");
}

#[test]
fn prefix_is_what_precedes_the_last_dot() {
    assert_eq!(FileUtils::get_file_prefix("a.tar.xz"), "a.tar");
    assert_eq!(FileUtils::get_file_prefix("photo.JPG"), "photo");
    assert_eq!(FileUtils::get_file_prefix(".hidden"), "");
}

#[test]
fn hash_of_empty_content_is_empty() {
    assert_eq!(FileUtils::get_file_hash(&Vec::new()), "");
}

#[test]
fn hash_is_sha256_in_hexadecimal() {
    assert_eq!(
        FileUtils::get_file_hash(&b"crypto-hash".to_vec()),
        "fd1afb6022cd4d47c890961c533928eacfe8219f1b2524f7fb2a61847ddf8c27"
    );
    assert_eq!(
        FileUtils::get_file_hash(&b"abc".to_vec()),
        "ba7816bf8f01cfea414140de5dae2223b00361a396177a9cb410ff61f20015ad"
    );
}

#[test]
fn sweep_removes_old_entries_but_not_the_history() {
    let entries = vec![
        ("/data/QuickLook/old".to_string(), 100),
        ("/data/QuickLook/history".to_string(), 50),
        ("/data/QuickLook/new".to_string(), 201),
        ("/data/QuickLook/edge".to_string(), 200),
    ];
    let stale = FileUtils::clear_yesterdays_dirs(&entries, 200);
    assert_eq!(stale, vec!["/data/QuickLook/old".to_string(), "/data/QuickLook/edge".to_string()]);
}

#[test]
fn paths_are_joined_with_one_separator() {
    assert_eq!(FileUtils::join_path("/data/QuickLook", "pkg"), "/data/QuickLook/pkg");
    assert_eq!(FileUtils::join_path("/data/QuickLook/", "pkg"), "/data/QuickLook/pkg");
    assert_eq!(FileUtils::join_path("", "pkg"), "/pkg");
    assert_eq!(FileUtils::join_path("/", "pkg"), "/pkg");
}

#[test]
fn cache_directory_depends_on_the_name_alone() {
    let first = FileUtils::create_temp_dir("/data/QuickLook", "report.final");
    let second = FileUtils::create_temp_dir("/data/QuickLook", "report.final");
    assert_eq!(first, "/data/QuickLook/report.final");
    assert_eq!(first, second);
}
