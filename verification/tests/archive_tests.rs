use std::io::Write;

use chronikl::env::Env;
use chronikl::update::{detect_container_environment, extract_binary, install_binary, UpdateError};

fn archive(name: &str, content: &[u8], mode: u32) -> Vec<u8> {
    let mut builder = tar::Builder::new(Vec::new());
    let mut header = tar::Header::new_gnu();
    header.set_size(content.len() as u64);
    header.set_mode(mode);
    header.set_cksum();
    builder.append_data(&mut header, name, content).unwrap();
    let tar_bytes = builder.into_inner().unwrap();
    let mut encoder = flate2::write::GzEncoder::new(Vec::new(), flate2::Compression::fast());
    encoder.write_all(&tar_bytes).unwrap();
    encoder.finish().unwrap()
}

#[test]
fn extract_binary_empty_archive_fails() {
    assert!(extract_binary(&[]).is_err());
}

#[test]
fn extract_binary_valid_archive() {
    let content = b"fake-binary-content";
    let gz_bytes = archive("chronikl", content, 0o755);
    let result = extract_binary(&gz_bytes).unwrap();
    assert_eq!(result, content);
}

#[test]
fn extract_binary_no_matching_entry() {
    let gz_bytes = archive("some-other-file", b"other-content", 0o644);
    let result = extract_binary(&gz_bytes);
    assert!(result.is_err());
    assert!(result.unwrap_err().message().contains("does not contain"));
}

#[test]
fn extract_binary_nested_path() {
    let content = b"nested-binary";
    let gz_bytes = archive("chronikl-v1.0.0/chronikl", content, 0o755);
    let result = extract_binary(&gz_bytes).unwrap();
    assert_eq!(result, content);
}

#[test]
fn extract_binary_empty_binary_is_an_error() {
    let gz_bytes = archive("chronikl", b"", 0o755);
    assert_eq!(
        extract_binary(&gz_bytes),
        Err(UpdateError::Extract("extracted binary is empty".to_string()))
    );
}

#[test]
fn extract_binary_garbage_is_an_extract_error() {
    match extract_binary(b"not a gzip stream at all") {
        Err(UpdateError::Extract(m)) => assert!(m.starts_with("corrupt archive entry: ") || m.starts_with("failed to read archive entries: ")),
        other => panic!("expected an extract error, got {other:?}"),
    }
}

#[test]
fn container_detection_order() {
    let none = Env::mock(&[]);
    assert_eq!(detect_container_environment(true, &none, None), Some("Docker"));
    assert_eq!(detect_container_environment(false, &Env::mock(&[("container", "podman")]), None), Some("a container"));
    assert_eq!(detect_container_environment(false, &none, Some("0::/system.slice/containerd.service")), Some("a container"));
    assert_eq!(
        detect_container_environment(false, &Env::mock(&[("KUBERNETES_SERVICE_HOST", "10.0.0.1")]), Some("0::/")),
        Some("Kubernetes")
    );
    assert_eq!(detect_container_environment(false, &none, Some("0::/init.scope")), None);
}

#[test]
fn install_binary_checks_then_extracts() {
    let gz = archive("chronikl", b"bin", 0o755);
    let sum = hex::encode(<sha2::Sha256 as sha2::Digest>::digest(&gz));
    let checksums = format!("{sum}  chronikl-x86_64-unknown-linux-gnu.tar.gz\n");
    assert_eq!(install_binary(&gz, "chronikl-x86_64-unknown-linux-gnu.tar.gz", &checksums).unwrap(), b"bin");
    assert!(matches!(
        install_binary(&gz, "other.tar.gz", &checksums),
        Err(UpdateError::ChecksumNotFound(_))
    ));
    let bad = format!("{}  a.tar.gz\n", "0".repeat(64));
    assert!(matches!(install_binary(&gz, "a.tar.gz", &bad), Err(UpdateError::ChecksumMismatch { .. })));
}
