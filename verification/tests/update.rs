use melange::update::{is_newer, parse_version, target_triple, UpdateError};

#[test]
fn test_parse_version() {
    assert_eq!(parse_version("0.1.0").unwrap(), (0, 1, 0));
    assert_eq!(parse_version("v0.2.0").unwrap(), (0, 2, 0));
    assert_eq!(parse_version("v1.10.3").unwrap(), (1, 10, 3));
}

#[test]
fn test_is_newer() {
    assert!(is_newer("v0.2.0", "0.1.0").unwrap());
    assert!(!is_newer("v0.1.0", "0.1.0").unwrap());
    assert!(!is_newer("v0.0.9", "0.1.0").unwrap());
    assert!(is_newer("v1.0.0", "0.9.9").unwrap());
}

#[test]
fn test_target_triple_succeeds() {
    for (os, arch) in [("macos", "aarch64"), ("macos", "x86_64"), ("linux", "aarch64"), ("linux", "x86_64")] {
        let triple = target_triple(os, arch).unwrap();
        assert!(triple.contains("apple-darwin") || triple.contains("unknown-linux"));
    }
}

#[test]
fn target_triple_of_supported_platforms() {
    assert_eq!(target_triple("macos", "aarch64").unwrap(), "aarch64-apple-darwin");
    assert_eq!(target_triple("macos", "x86_64").unwrap(), "x86_64-apple-darwin");
    assert_eq!(target_triple("linux", "aarch64").unwrap(), "aarch64-unknown-linux-gnu");
    assert_eq!(target_triple("linux", "x86_64").unwrap(), "x86_64-unknown-linux-gnu");
}

#[test]
fn target_triple_of_unsupported_platform() {
    assert_eq!(target_triple("windows", "x86_64"), Err(UpdateError::UnsupportedPlatform));
    assert_eq!(target_triple("linux", "riscv64"), Err(UpdateError::UnsupportedPlatform));
}

use melange::update::{
    check_release_status, expected_asset_name, extract_binary, find_asset, should_update, VersionError,
};

fn tar_gz(entries: &[(&str, &[u8])]) -> Vec<u8> {
    let mut builder = tar::Builder::new(Vec::new());
    for (name, data) in entries {
        let mut header = tar::Header::new_gnu();
        header.set_size(data.len() as u64);
        header.set_mode(0o755);
        header.set_cksum();
        builder.append_data(&mut header, name, *data).unwrap();
    }
    let tar_bytes = builder.into_inner().unwrap();
    let mut enc = flate2::write::GzEncoder::new(Vec::new(), flate2::Compression::default());
    std::io::Write::write_all(&mut enc, &tar_bytes).unwrap();
    enc.finish().unwrap()
}

#[test]
fn parse_version_refusals_name_the_part() {
    assert_eq!(parse_version("1.2"), Err(VersionError::Format));
    assert_eq!(parse_version("1.2.3.4"), Err(VersionError::Format));
    assert_eq!(parse_version("x.2.3"), Err(VersionError::Major));
    assert_eq!(parse_version("1.y.3"), Err(VersionError::Minor));
    assert_eq!(parse_version("1.2.z"), Err(VersionError::Patch));
    assert_eq!(parse_version(""), Err(VersionError::Format));
    assert_eq!(parse_version("vv1.2.3"), Err(VersionError::Major));
}

#[test]
fn parse_version_reads_what_u64_parsing_reads() {
    assert_eq!(parse_version("+1.02.3").unwrap(), (1, 2, 3));
    assert_eq!(parse_version("18446744073709551615.0.0").unwrap(), (u64::MAX, 0, 0));
    assert_eq!(parse_version("18446744073709551616.0.0"), Err(VersionError::Major));
}

#[test]
fn newer_is_strict_and_one_way() {
    assert!(!is_newer("1.2.3", "v1.2.3").unwrap());
    assert!(is_newer("1.3.0", "1.2.9").unwrap());
    assert!(!is_newer("1.2.9", "1.3.0").unwrap());
    assert!(is_newer("1.2.4", "1.2.3").unwrap());
    assert!(is_newer("2.0.0", "1.99.99").unwrap());
    assert_eq!(is_newer("bad", "1.0.0"), Err(VersionError::Format));
    assert_eq!(is_newer("1.0.0", "1.x.0"), Err(VersionError::Minor));
}

#[test]
fn release_status_decides() {
    assert_eq!(check_release_status(200), Ok(()));
    assert_eq!(check_release_status(404), Err(UpdateError::NoReleases));
    assert_eq!(check_release_status(403), Err(UpdateError::HttpStatus(403)));
}

#[test]
fn should_update_wraps_version_errors() {
    assert_eq!(should_update("v0.2.0", "0.1.0"), Ok(true));
    assert_eq!(should_update("v0.1.0", "0.1.0"), Ok(false));
    assert_eq!(should_update("latest", "0.1.0"), Err(UpdateError::Version(VersionError::Format)));
}

#[test]
fn asset_name_and_lookup() {
    let name = expected_asset_name("v0.2.0", "aarch64-apple-darwin");
    assert_eq!(name, "melange-v0.2.0-aarch64-apple-darwin.tar.gz");
    let names = vec![
        "checksums.txt".to_string(),
        "melange-v0.2.0-x86_64-apple-darwin.tar.gz".to_string(),
        "melange-v0.2.0-aarch64-apple-darwin.tar.gz".to_string(),
    ];
    assert_eq!(find_asset(&names, &name), Ok(2));
    assert_eq!(find_asset(&names, "melange-v0.2.0-riscv.tar.gz"), Err(UpdateError::NoAsset));
}

#[test]
fn extract_binary_finds_the_melange_entry() {
    let archive = tar_gz(&[
        ("melange-v0.2.0/README.md", b"readme"),
        ("melange-v0.2.0/melange", b"\x7fELF binary"),
    ]);
    assert_eq!(extract_binary(&archive), Ok(b"\x7fELF binary".to_vec()));
}

#[test]
fn extract_binary_reports_missing_binary() {
    let archive = tar_gz(&[("melange-v0.2.0/README.md", b"readme")]);
    assert_eq!(extract_binary(&archive), Err(UpdateError::BinaryMissing));
}

#[test]
fn extract_binary_stops_reading_at_the_binary() {
    let mut noise = Vec::with_capacity(200_000);
    let mut x: u32 = 12345;
    for _ in 0..200_000 {
        x = x.wrapping_mul(1_103_515_245).wrapping_add(12_345);
        noise.push((x >> 16) as u8);
    }
    let archive = tar_gz(&[
        ("melange-v0.2.0/melange", b"\x7fELF binary"),
        ("melange-v0.2.0/assets.bin", &noise),
    ]);
    let cut = &archive[..archive.len() / 2];
    assert_eq!(extract_binary(cut), Ok(b"\x7fELF binary".to_vec()));
}

#[test]
fn extract_binary_refuses_non_gzip() {
    assert_eq!(extract_binary(b"not a gzip stream"), Err(UpdateError::ArchiveUnreadable));
}
