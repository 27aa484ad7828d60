use harnel::toolchain::{
    cache_marker_matches, distribution_for, holds_aligned_ones_word, is_supported_zig, layout, prepare_archive, select_distribution,
    tar_from_xz, DownloadBudget, ToolchainError, Unpack, MAX_ARCHIVE,
};

#[test]
fn zig_version_check() {
    assert!(is_supported_zig(true, b"0.16.0\n"));
    assert!(is_supported_zig(true, b"  0.16.0 \r\n"));
    assert!(!is_supported_zig(false, b"0.16.0\n"));
    assert!(!is_supported_zig(true, b"0.15.1\n"));
    assert!(!is_supported_zig(true, b"0.16.0-dev\n"));
    assert!(!is_supported_zig(true, b""));
}

#[test]
fn distribution_layout() {
    let l = layout("https://ziglang.org/download/0.16.0/zig-x86_64-linux-0.16.0.tar.xz", "x86_64-unknown-linux-gnu");
    assert_eq!(l.file_name, "zig-x86_64-linux-0.16.0.tar.xz");
    assert_eq!(l.directory, "zig-x86_64-linux-0.16.0");
    assert_eq!(l.executable, "zig");
    assert!(!l.is_zip);
    let l = layout("https://ziglang.org/download/0.16.0/zig-x86_64-windows-0.16.0.zip", "x86_64-pc-windows-msvc");
    assert_eq!(l.directory, "zig-x86_64-windows-0.16.0");
    assert_eq!(l.executable, "zig.exe");
    assert!(l.is_zip);
    let l = layout("archive.zip.zip", "host");
    assert_eq!(l.file_name, "archive.zip.zip");
    assert_eq!(l.directory, "archive");
}

#[test]
fn cached_marker_and_table_entry() {
    assert!(cache_marker_matches(Some("abc"), "abc"));
    assert!(!cache_marker_matches(Some("abd"), "abc"));
    assert!(!cache_marker_matches(None, "abc"));
    assert!(matches!(select_distribution(None, None), Err(ToolchainError::NoDistribution)));
    assert!(matches!(select_distribution(Some("u".into()), None), Err(ToolchainError::NoChecksum)));
    let d = select_distribution(Some("u".into()), Some("c".into())).ok().unwrap();
    assert_eq!((d.url.as_str(), d.checksum.as_str()), ("u", "c"));
    assert_eq!(ToolchainError::NoDistribution.message(), "No automatic Zig distribution for this host; set ZIG");
}

#[test]
fn download_budget() {
    let mut b = DownloadBudget::new();
    assert!(b.add(MAX_ARCHIVE - 1).is_ok());
    assert!(b.add(1).is_ok());
    assert!(matches!(b.add(1), Err(ToolchainError::TooLarge)));
    assert!(matches!(b.add(1), Err(ToolchainError::TooLarge)));
    assert!(b.add(0).is_ok());
    assert_eq!(ToolchainError::TooLarge.message(), "Zig archive exceeds 200 MiB");
}

const ABC_SHA256: &str = "ba7816bf8f01cfea414140de5dae2223b00361a396177a9cb410ff61f20015ad";

#[test]
fn checksum_is_checked_before_unpacking() {
    assert!(matches!(prepare_archive(b"abc", ABC_SHA256, true), Ok(Unpack::Zip)));
    assert!(matches!(prepare_archive(b"abd", ABC_SHA256, true), Err(ToolchainError::ChecksumMismatch)));
    assert!(matches!(prepare_archive(b"abc", ABC_SHA256, false), Err(ToolchainError::Decompress(_))));
}

#[test]
fn xz_archives_are_decompressed() {
    let tar = b"pretend this is a tar archive".to_vec();
    let mut xz = Vec::new();
    lzma_rs::xz_compress(&mut &tar[..], &mut xz).unwrap();
    let checksum = <sha2::Sha256 as sha2::Digest>::digest(&xz).iter().map(|b| format!("{:02x}", b)).collect::<String>();
    match prepare_archive(&xz, &checksum, false) {
        Ok(Unpack::Tar(out)) => assert_eq!(out, tar),
        _ => panic!("expected a tar archive"),
    }
    match tar_from_xz(Err("xz error: bad".into())) {
        Err(e) => assert_eq!(e.message(), "xz error: bad"),
        _ => panic!(),
    }
}

#[test]
fn pinned_table_lookup() {
    let table = r#"{"x86_64-linux":{"tarball":"https://z/zig.tar.xz","shasum":"abc"},"arm":{"tarball":"u"},"odd":{"shasum":"c"}}"#;
    let d = distribution_for(table, "x86_64-linux").ok().unwrap();
    assert_eq!(d.url, "https://z/zig.tar.xz");
    assert_eq!(d.checksum, "abc");
    assert!(matches!(distribution_for(table, "arm"), Err(ToolchainError::NoChecksum)));
    assert!(matches!(distribution_for(table, "odd"), Err(ToolchainError::NoDistribution)));
    assert!(matches!(distribution_for(table, "missing"), Err(ToolchainError::NoDistribution)));
    match distribution_for("{not json", "x") {
        Err(e @ ToolchainError::BadTable(_)) => assert!(e.message().starts_with("pinned Zig toolchains: ")),
        _ => panic!(),
    }
}

#[test]
fn footer_with_unreadable_index_size_is_not_decoded() {
    let mut xz = Vec::new();
    lzma_rs::xz_compress(&mut &b""[..], &mut xz).unwrap();
    let n = xz.len();
    assert_eq!(n % 4, 0);
    xz[n - 8..n - 4].copy_from_slice(&[0xFF; 4]);
    let checksum = <sha2::Sha256 as sha2::Digest>::digest(&xz).iter().map(|b| format!("{:02x}", b)).collect::<String>();
    match prepare_archive(&xz, &checksum, false) {
        Err(e) => assert_eq!(e.message(), "xz archive holds the word 0xFFFFFFFF at a four-byte boundary; not decoded"),
        _ => panic!("expected a refusal"),
    }
    assert!(holds_aligned_ones_word(&[0, 0, 0, 0, 0xFF, 0xFF, 0xFF, 0xFF]));
    assert!(!holds_aligned_ones_word(&[0, 0xFF, 0xFF, 0xFF, 0xFF, 0, 0, 0]));
    assert!(!holds_aligned_ones_word(&[0xFF, 0xFF, 0xFF]));
}
