//! The checks of the self-update: which platforms have builds, whether a
//! release is newer, and whether a download matches its checksum.
//!
//! Downloading, unpacking and replacing the binary are done by the
//! caller.

use vstd::prelude::*;

use crate::hashing::{hex_encode, hex_of, sha256, sha256_digest};
use crate::split::{lines, lines_exec, words, words_exec};
use crate::text::{chars_of, eq_chars, eq_str, push_str, string_of, views};

verus! {

/// The version of this build.
pub const CURRENT_VERSION: &'static str = crate::telemetry::FULL_VERSION;

/// The targets that have pre-built binaries.
pub open spec fn supported_targets() -> Seq<Seq<char>> {
    seq![
        "x86_64-unknown-linux-gnu"@,
        "aarch64-unknown-linux-gnu"@,
        "x86_64-apple-darwin"@,
        "aarch64-apple-darwin"@,
    ]
}

/// Why a self-update failed.
#[derive(Debug, Clone, PartialEq, Eq)]
pub enum UpdateError {
    Api(String),
    Download(String),
    ChecksumMismatch { expected: String, actual: String },
    ChecksumNotFound(String),
    Extract(String),
    Replace(String),
    PermissionDenied(String),
    UnsupportedPlatform(String),
}

/// The message of an [`UpdateError`].
pub open spec fn update_error_text(e: UpdateError) -> Seq<char> {
    match e {
        UpdateError::Api(m) => "failed to query GitHub releases: "@ + m@,
        UpdateError::Download(m) => "failed to download release asset: "@ + m@,
        UpdateError::ChecksumMismatch { expected, actual } => "checksum verification failed: expected "@
            + expected@ + ", got "@ + actual@,
        UpdateError::ChecksumNotFound(m) => "checksum file does not contain entry for "@ + m@,
        UpdateError::Extract(m) => "failed to extract archive: "@ + m@,
        UpdateError::Replace(m) => "failed to replace binary: "@ + m@,
        UpdateError::PermissionDenied(m) => m@,
        UpdateError::UnsupportedPlatform(m) => "unsupported platform: "@ + m@,
    }
}

impl UpdateError {
    /// The error's message.
    pub fn message(&self) -> (r: String)
        ensures
            r@ == update_error_text(*self),
    {
        let mut out = String::new();
        match self {
            UpdateError::Api(m) => {
                push_str(&mut out, "failed to query GitHub releases: ");
                push_str(&mut out, m.as_str());
            },
            UpdateError::Download(m) => {
                push_str(&mut out, "failed to download release asset: ");
                push_str(&mut out, m.as_str());
            },
            UpdateError::ChecksumMismatch { expected, actual } => {
                push_str(&mut out, "checksum verification failed: expected ");
                push_str(&mut out, expected.as_str());
                push_str(&mut out, ", got ");
                push_str(&mut out, actual.as_str());
            },
            UpdateError::ChecksumNotFound(m) => {
                push_str(&mut out, "checksum file does not contain entry for ");
                push_str(&mut out, m.as_str());
            },
            UpdateError::Extract(m) => {
                push_str(&mut out, "failed to extract archive: ");
                push_str(&mut out, m.as_str());
            },
            UpdateError::Replace(m) => {
                push_str(&mut out, "failed to replace binary: ");
                push_str(&mut out, m.as_str());
            },
            UpdateError::PermissionDenied(m) => {
                push_str(&mut out, m.as_str());
            },
            UpdateError::UnsupportedPlatform(m) => {
                push_str(&mut out, "unsupported platform: ");
                push_str(&mut out, m.as_str());
            },
        }
        out
    }
}

/// The message of a target without a build.
pub open spec fn unsupported_text(target: Seq<char>) -> Seq<char> {
    "no pre-built binary available for '"@ + target
        + "'. Supported targets: x86_64-unknown-linux-gnu, aarch64-unknown-linux-gnu, x86_64-apple-darwin, aarch64-apple-darwin"@
}

/// Check that `target` has a pre-built binary.
pub fn validate_platform(target: &str) -> (r: Result<(), UpdateError>)
    ensures
        match r {
            Ok(_) => supported_targets().contains(target@),
            Err(e) => !supported_targets().contains(target@) && (e matches UpdateError::UnsupportedPlatform(m)
                && m@ == unsupported_text(target@)),
        },
{
    let t = chars_of(target);
    let ghost all = supported_targets();
    if eq_str(&t, "x86_64-unknown-linux-gnu") {
        proof {
            assert(all[0] == target@);
        }
        return Ok(());
    }
    if eq_str(&t, "aarch64-unknown-linux-gnu") {
        proof {
            assert(all[1] == target@);
        }
        return Ok(());
    }
    if eq_str(&t, "x86_64-apple-darwin") {
        proof {
            assert(all[2] == target@);
        }
        return Ok(());
    }
    if eq_str(&t, "aarch64-apple-darwin") {
        proof {
            assert(all[3] == target@);
        }
        return Ok(());
    }
    proof {
        assert forall|i: int| 0 <= i < all.len() implies all[i] != target@ by {
            assert(i == 0 || i == 1 || i == 2 || i == 3);
        }
    }
    let mut m = String::from_str("no pre-built binary available for '");
    push_str(&mut m, target);
    push_str(
        &mut m,
        "'. Supported targets: x86_64-unknown-linux-gnu, aarch64-unknown-linux-gnu, x86_64-apple-darwin, aarch64-apple-darwin",
    );
    Err(UpdateError::UnsupportedPlatform(m))
}

/// The file name of the release archive for a target.
pub fn asset_name(target: &str) -> (r: String)
    ensures
        r@ == "chronikl-"@ + target@ + ".tar.gz"@,
{
    let mut out = String::from_str("chronikl-");
    push_str(&mut out, target);
    push_str(&mut out, ".tar.gz");
    out
}

/// A release tag's version: the tag without a leading `v`.
pub open spec fn tag_version(tag: Seq<char>) -> Seq<char> {
    if tag.len() > 0 && tag[0] == 'v' {
        tag.drop_first()
    } else {
        tag
    }
}

/// The version a release tag names.
pub fn version_of_tag(tag: &str) -> (r: String)
    ensures
        r@ == tag_version(tag@),
{
    let t = chars_of(tag);
    if t.len() > 0 && t[0] == 'v' {
        let rest = crate::text::slice_vec(&t, 1, t.len());
        proof {
            assert(rest@ =~= tag@.drop_first());
        }
        string_of(&rest)
    } else {
        String::from_str(tag)
    }
}

/// Whether `remote` is newer than `current` by semver precedence, or
/// `None` when either is not a semver version.
pub uninterp spec fn semver_newer(current: Seq<char>, remote: Seq<char>) -> Option<bool>;

/// `semver::Version::parse` of both texts and `>` between the results.
/// The contract names the outcome; precedence (pre-release identifiers
/// included) is left to the crate.
#[verifier::external_body]
fn semver_greater(current: &str, remote: &str) -> (r: Option<bool>)
    ensures
        r == semver_newer(current@, remote@),
{
    match (semver::Version::parse(current), semver::Version::parse(remote)) {
        (Ok(c), Ok(r)) => Some(r > c),
        _ => None,
    }
}

/// Whether `remote` is newer than `current`: by semver precedence when
/// both parse, else whenever the texts differ.
pub open spec fn newer_than(current: Seq<char>, remote: Seq<char>, cmp_result: Option<bool>) -> bool {
    match cmp_result {
        Some(b) => b,
        None => remote != current,
    }
}

/// Whether `remote` is newer than `current`.
pub fn is_newer_than(current: &str, remote: &str) -> (r: bool)
    ensures
        r == newer_than(current@, remote@, semver_newer(current@, remote@)),
{
    match semver_greater(current, remote) {
        Some(b) => b,
        None => !eq_chars(&chars_of(current), &chars_of(remote)),
    }
}

/// Whether a release is newer than this build.
pub fn is_newer(remote: &str) -> (r: bool)
    ensures
        r == newer_than(CURRENT_VERSION@, remote@, semver_newer(CURRENT_VERSION@, remote@)),
{
    is_newer_than(CURRENT_VERSION, remote)
}

/// The hash a checksum line gives for `name`: a line of a hash and a file
/// name separated by whitespace.
pub open spec fn line_hash(line: Seq<char>, name: Seq<char>) -> Option<Seq<char>> {
    let ws = words(line);
    if ws.len() >= 2 && ws[1] == name {
        Some(ws[0])
    } else {
        None
    }
}

/// The hash of the first line that lists `name`.
pub open spec fn listed_hash(ls: Seq<Seq<char>>, name: Seq<char>) -> Option<Seq<char>>
    decreases ls.len(),
{
    if ls.len() == 0 {
        None
    } else {
        match line_hash(ls[0], name) {
            Some(h) => Some(h),
            None => listed_hash(ls.drop_first(), name),
        }
    }
}

fn line_hash_exec(line: &[char], name: &[char]) -> (r: Option<Vec<char>>)
    ensures
        match r {
            Some(h) => line_hash(line@, name@) == Some(h@),
            None => line_hash(line@, name@) is None,
        },
{
    let ws = words_exec(line);
    if ws.len() >= 2 && eq_chars(&ws[1], name) {
        let h = crate::text::slice_vec(&ws[0], 0, ws[0].len());
        proof {
            assert(h@ =~= ws@[0]@);
        }
        Some(h)
    } else {
        None
    }
}

/// Check downloaded bytes against a `SHA256SUMS` text: the first line
/// that lists `asset_name` gives the expected lower-case hex digest.
pub fn verify_checksum(data: &[u8], asset_name: &str, checksums_text: &str) -> (r: Result<(), UpdateError>)
    ensures
        match listed_hash(lines(checksums_text@), asset_name@) {
            None => r matches Err(UpdateError::ChecksumNotFound(n)) && n@ == asset_name@,
            Some(h) => if h == hex_of(sha256(data@)) {
                r is Ok
            } else {
                r matches Err(UpdateError::ChecksumMismatch { expected, actual }) && expected@ == h && actual@
                    == hex_of(sha256(data@))
            },
        },
{
    let ls = lines_exec(&chars_of(checksums_text));
    let name = chars_of(asset_name);
    let ghost all = views(ls@);
    let mut i: usize = 0;
    let mut found: Option<Vec<char>> = None;
    proof {
        assert(all.skip(0) =~= all);
    }
    while i < ls.len()
        invariant_except_break
            found is None,
        invariant
            i <= ls@.len(),
            all == views(ls@),
            name@ == asset_name@,
            listed_hash(all, asset_name@) == listed_hash(all.skip(i as int), asset_name@),
        ensures
            match found {
                Some(h) => listed_hash(all, asset_name@) == Some(h@),
                None => listed_hash(all, asset_name@) is None,
            },
        decreases ls@.len() - i,
    {
        proof {
            assert(all.skip(i as int)[0] == ls@[i as int]@);
            assert(all.skip(i as int).drop_first() =~= all.skip(i + 1));
        }
        match line_hash_exec(&ls[i], &name) {
            Some(h) => {
                found = Some(h);
                break;
            },
            None => {},
        }
        i = i + 1;
    }
    proof {
        if found is None && i == ls@.len() {
            assert(all.skip(i as int) =~= Seq::<Seq<char>>::empty());
        }
    }
    match found {
        None => Err(UpdateError::ChecksumNotFound(String::from_str(asset_name))),
        Some(expected) => {
            let digest = sha256_digest(data);
            let actual = hex_encode(digest.as_slice());
            if eq_chars(&chars_of(actual.as_str()), &expected) {
                Ok(())
            } else {
                Err(UpdateError::ChecksumMismatch { expected: string_of(&expected), actual })
            }
        },
    }
}

/// One entry of a release archive as read: its path (or the error
/// reading it) and its contents (or the error reading them).
#[derive(Debug)]
pub struct ArchiveEntry {
    pub path: Result<String, String>,
    pub data: Result<Vec<u8>, String>,
}

/// An archive entry by value.
pub enum EntryView {
    /// Reading the entry's header failed, with the error's message; the
    /// listing ends there.
    Corrupt(Seq<char>),
    /// An entry with its path and its contents.
    Item { path: Result<Seq<char>, Seq<char>>, data: Result<Seq<u8>, Seq<char>> },
}

pub open spec fn entry_view(e: Result<ArchiveEntry, String>) -> EntryView {
    match e {
        Err(m) => EntryView::Corrupt(m@),
        Ok(a) => EntryView::Item {
            path: match a.path {
                Ok(p) => Ok(p@),
                Err(m) => Err(m@),
            },
            data: match a.data {
                Ok(d) => Ok(d@),
                Err(m) => Err(m@),
            },
        },
    }
}

/// The entries of a gzip-compressed tar archive as the `flate2` and
/// `tar` crates read them, or the message of the error opening the
/// entry list.
pub uninterp spec fn archive_listing(bytes: Seq<u8>) -> Result<Seq<EntryView>, Seq<char>>;

/// Opens `bytes` with `flate2::read::GzDecoder` and `tar::Archive`,
/// then reads each entry's path (lossily as UTF-8) and contents. The
/// contract names the listing.
#[verifier::external_body]
fn read_archive(bytes: &[u8]) -> (r: Result<Vec<Result<ArchiveEntry, String>>, String>)
    ensures
        match r {
            Ok(v) => archive_listing(bytes@) == Ok::<Seq<EntryView>, Seq<char>>(v@.map_values(|e: Result<ArchiveEntry, String>| entry_view(e))),
            Err(m) => archive_listing(bytes@) == Err::<Seq<EntryView>, Seq<char>>(m@),
        },
{
    let mut archive = tar::Archive::new(flate2::read::GzDecoder::new(bytes));
    let entries = archive.entries().map_err(|e| e.to_string())?;
    Ok(entries.map(|entry| entry.map_err(|e| e.to_string()).map(|mut en| {
        let path = en.path().map(|p| p.to_string_lossy().into_owned()).map_err(|e| e.to_string());
        let mut buf = Vec::new();
        let data = std::io::Read::read_to_end(&mut en, &mut buf).map(|_| buf).map_err(|e| e.to_string());
        ArchiveEntry { path, data }
    })).collect())
}

fn copy_bytes(d: &Vec<u8>) -> (r: Vec<u8>)
    ensures
        r@ == d@,
{
    let mut out: Vec<u8> = Vec::new();
    let mut i: usize = 0;
    while i < d.len()
        invariant
            i <= d@.len(),
            out@ == d@.take(i as int),
        decreases d@.len() - i,
    {
        out.push(d[i]);
        i = i + 1;
        proof {
            assert(out@ =~= d@.take(i as int));
        }
    }
    proof {
        assert(d@.take(d@.len() as int) =~= d@);
    }
    out
}

/// The binary's file name inside a release archive.
pub const BINARY_NAME: &'static str = "chronikl";

/// What the entries from `k` on give: the first corrupt entry or bad
/// path is an error; the first entry whose file name is the binary's
/// gives its contents (an error when they could not be read or are
/// empty); running out is an error.
pub open spec fn binary_from(es: Seq<EntryView>, k: int) -> Result<Seq<u8>, Seq<char>>
    decreases es.len() - k,
{
    if k < 0 || k >= es.len() {
        Err("archive does not contain a 'chronikl' binary"@)
    } else {
        match es[k] {
            EntryView::Corrupt(m) => Err("corrupt archive entry: "@ + m),
            EntryView::Item { path, data } => match path {
                Err(m) => Err("invalid path in archive: "@ + m),
                Ok(p) => if crate::ladder::tier0::path_file_name(p) == Some(BINARY_NAME@) {
                    match data {
                        Err(m) => Err("failed to read binary from archive: "@ + m),
                        Ok(d) => if d.len() == 0 { Err("extracted binary is empty"@) } else { Ok(d) },
                    }
                } else {
                    binary_from(es, k + 1)
                },
            },
        }
    }
}

/// The binary inside a release archive's bytes.
pub open spec fn extracted(bytes: Seq<u8>) -> Result<Seq<u8>, Seq<char>> {
    match archive_listing(bytes) {
        Err(m) => Err("failed to read archive entries: "@ + m),
        Ok(es) => binary_from(es, 0),
    }
}

/// Take the binary out of a `.tar.gz` release archive (see
/// [`binary_from`]); a failure is [`UpdateError::Extract`].
pub fn extract_binary(archive_bytes: &[u8]) -> (r: Result<Vec<u8>, UpdateError>)
    ensures
        match extracted(archive_bytes@) {
            Ok(d) => r matches Ok(v) && v@ == d,
            Err(m) => r matches Err(UpdateError::Extract(e)) && e@ == m,
        },
{
    let entries = match read_archive(archive_bytes) {
        Ok(v) => v,
        Err(m) => {
            let mut e = String::from_str("failed to read archive entries: ");
            push_str(&mut e, m.as_str());
            return Err(UpdateError::Extract(e));
        },
    };
    let ghost es = entries@.map_values(|e: Result<ArchiveEntry, String>| entry_view(e));
    let mut i: usize = 0;
    while i < entries.len()
        invariant
            i <= entries@.len(),
            es == entries@.map_values(|e: Result<ArchiveEntry, String>| entry_view(e)),
            archive_listing(archive_bytes@) == Ok::<Seq<EntryView>, Seq<char>>(es),
            binary_from(es, 0) == binary_from(es, i as int),
        decreases entries@.len() - i,
    {
        proof {
            assert(es[i as int] == entry_view(entries@[i as int]));
        }
        match &entries[i] {
            Err(m) => {
                let mut e = String::from_str("corrupt archive entry: ");
                push_str(&mut e, m.as_str());
                return Err(UpdateError::Extract(e));
            },
            Ok(entry) => match &entry.path {
                Err(m) => {
                    let mut e = String::from_str("invalid path in archive: ");
                    push_str(&mut e, m.as_str());
                    return Err(UpdateError::Extract(e));
                },
                Ok(p) => {
                    let name = crate::ladder::tier0::file_name_of(p.as_str());
                    let is_binary = match &name {
                        Some(n) => eq_str(&chars_of(n.as_str()), BINARY_NAME),
                        None => false,
                    };
                    if is_binary {
                        match &entry.data {
                            Err(m) => {
                                let mut e = String::from_str("failed to read binary from archive: ");
                                push_str(&mut e, m.as_str());
                                return Err(UpdateError::Extract(e));
                            },
                            Ok(d) => {
                                if d.len() == 0 {
                                    return Err(UpdateError::Extract(String::from_str("extracted binary is empty")));
                                }
                                let out = copy_bytes(d);
                                return Ok(out);
                            },
                        }
                    }
                },
            },
        }
        i = i + 1;
    }
    Err(UpdateError::Extract(String::from_str("archive does not contain a 'chronikl' binary")))
}

/// The container a run is in, if any: `Docker` when `/.dockerenv`
/// exists, else `a container` when `container` is set or the init
/// process's cgroup names docker, containerd or lxc, else `Kubernetes`
/// when `KUBERNETES_SERVICE_HOST` is set. `cgroup` is the text of
/// `/proc/1/cgroup`, when it could be read.
pub open spec fn container_of(dockerenv: bool, env: crate::env::Env, cgroup: Option<Seq<char>>) -> Option<Seq<char>> {
    if dockerenv {
        Some("Docker"@)
    } else if env.lookup("container"@) is Some {
        Some("a container"@)
    } else if cgroup matches Some(c) && (crate::text::contains(c, "docker"@) || crate::text::contains(c, "containerd"@)
        || crate::text::contains(c, "lxc"@)) {
        Some("a container"@)
    } else if env.lookup("KUBERNETES_SERVICE_HOST"@) is Some {
        Some("Kubernetes"@)
    } else {
        None
    }
}

/// [`container_of`], from what the caller read of the system.
pub fn detect_container_environment(dockerenv: bool, env: &crate::env::Env, cgroup: Option<&str>) -> (r: Option<&'static str>)
    ensures
        match r {
            Some(n) => container_of(dockerenv, *env, match cgroup {
                Some(c) => Some(c@),
                None => None,
            }) == Some(n@),
            None => container_of(dockerenv, *env, match cgroup {
                Some(c) => Some(c@),
                None => None,
            }) is None,
        },
{
    if dockerenv {
        return Some("Docker");
    }
    if env.var("container").is_some() {
        return Some("a container");
    }
    match cgroup {
        Some(c) => {
            let t = chars_of(c);
            if crate::text::contains_exec(&t, &chars_of("docker")) || crate::text::contains_exec(&t, &chars_of("containerd"))
                || crate::text::contains_exec(&t, &chars_of("lxc")) {
                return Some("a container");
            }
        },
        None => {},
    }
    if env.var("KUBERNETES_SERVICE_HOST").is_some() {
        return Some("Kubernetes");
    }
    None
}

/// Whether to install the latest release: when forced, or when it is
/// newer than this build.
pub fn should_update(force: bool, remote_version: &str) -> (r: bool)
    ensures
        r == (force || newer_than(CURRENT_VERSION@, remote_version@, semver_newer(CURRENT_VERSION@, remote_version@))),
{
    force || is_newer(remote_version)
}

/// The new binary from a downloaded release: the archive must match its
/// line of the checksum file, then the binary is taken out of it.
pub fn install_binary(archive_bytes: &[u8], asset_name: &str, checksums_text: &str) -> (r: Result<Vec<u8>, UpdateError>)
    ensures
        match listed_hash(lines(checksums_text@), asset_name@) {
            None => r matches Err(UpdateError::ChecksumNotFound(n)) && n@ == asset_name@,
            Some(h) => if h != hex_of(sha256(archive_bytes@)) {
                r matches Err(UpdateError::ChecksumMismatch { expected, actual }) && expected@ == h && actual@
                    == hex_of(sha256(archive_bytes@))
            } else {
                match extracted(archive_bytes@) {
                    Ok(d) => r matches Ok(v) && v@ == d,
                    Err(m) => r matches Err(UpdateError::Extract(e)) && e@ == m,
                }
            },
        },
{
    match verify_checksum(archive_bytes, asset_name, checksums_text) {
        Ok(()) => extract_binary(archive_bytes),
        Err(e) => Err(e),
    }
}

} // verus!
