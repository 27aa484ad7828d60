//! Preparing the Zig compiler for a source build of the native engine: the
//! version check, where a downloaded distribution goes, the download's size
//! limit, its checksum, and its unpacking.
use vstd::prelude::*;
use crate::frame::is_ascii_whitespace;
use crate::text::{contains_text, ends_with, hex_lower, occurs_at, opt_view, str_eq, to_hex_lower};

verus! {

/// The largest Zig archive that is downloaded, in bytes.
pub const MAX_ARCHIVE: usize = 209715200;

/// What `zig version` prints for the supported compiler.
pub open spec fn zig_version_bytes() -> Seq<u8> {
    seq![48u8, 46u8, 49u8, 54u8, 46u8, 48u8]
}

/// `s` without its leading ASCII whitespace.
pub open spec fn trim_start(s: Seq<u8>) -> Seq<u8>
    decreases s.len(),
{
    if s.len() > 0 && is_ascii_whitespace(s[0]) {
        trim_start(s.drop_first())
    } else {
        s
    }
}

/// `s` without its trailing ASCII whitespace.
pub open spec fn trim_end(s: Seq<u8>) -> Seq<u8>
    decreases s.len(),
{
    if s.len() > 0 && is_ascii_whitespace(s.last()) {
        trim_end(s.drop_last())
    } else {
        s
    }
}

/// `s` without leading and trailing ASCII whitespace.
pub open spec fn trim_ascii(s: Seq<u8>) -> Seq<u8> {
    trim_end(trim_start(s))
}

/// Whether a run of `zig version` shows the supported compiler: it ran
/// successfully and printed `0.16.0`, give or take surrounding whitespace.
pub fn is_supported_zig(succeeded: bool, stdout: &[u8]) -> (r: bool)
    ensures
        r == (succeeded && trim_ascii(stdout@) == zig_version_bytes()),
{
    let n = stdout.len();
    let mut a: usize = 0;
    assert(stdout@.subrange(0, n as int) =~= stdout@);
    while a < n && (stdout[a] == 9 || stdout[a] == 10 || stdout[a] == 12 || stdout[a] == 13 || stdout[a] == 32)
        invariant
            a <= n,
            n == stdout@.len(),
            trim_start(stdout@) == trim_start(stdout@.subrange(a as int, n as int)),
        decreases n - a,
    {
        let ghost t = stdout@.subrange(a as int, n as int);
        assert(t.drop_first() =~= stdout@.subrange(a + 1, n as int));
        a = a + 1;
    }
    let ghost rest = stdout@.subrange(a as int, n as int);
    assert(trim_start(rest) == rest);
    let mut z: usize = n;
    while z > a && (stdout[z - 1] == 9 || stdout[z - 1] == 10 || stdout[z - 1] == 12 || stdout[z - 1] == 13 || stdout[z - 1] == 32)
        invariant
            a <= z <= n,
            n == stdout@.len(),
            trim_end(rest) == trim_end(stdout@.subrange(a as int, z as int)),
            rest == stdout@.subrange(a as int, n as int),
        decreases z - a,
    {
        let ghost t = stdout@.subrange(a as int, z as int);
        assert(t.drop_last() =~= stdout@.subrange(a as int, z - 1));
        z = z - 1;
    }
    let ghost core = stdout@.subrange(a as int, z as int);
    assert(trim_end(core) == core);
    assert(trim_ascii(stdout@) == core);
    if !succeeded || z - a != 6 {
        return false;
    }
    let same = stdout[a] == 48 && stdout[a + 1] == 46 && stdout[a + 2] == 49 && stdout[a + 3] == 54
        && stdout[a + 4] == 46 && stdout[a + 5] == 48;
    proof {
        if same {
            assert(core =~= zig_version_bytes());
        } else {
            if core == zig_version_bytes() {
                assert(core[0] == 48u8);
                assert(core[1] == 46u8);
                assert(core[2] == 49u8);
                assert(core[3] == 54u8);
                assert(core[4] == 46u8);
                assert(core[5] == 48u8);
            }
        }
    }
    same
}

/// The last `/`-separated segment of `s` (all of it when it has no `/`).
pub open spec fn last_segment(s: Seq<char>) -> Seq<char>
    decreases s.len(),
{
    if s.len() == 0 {
        s
    } else if s.last() == '/' {
        Seq::empty()
    } else {
        last_segment(s.drop_last()).push(s.last())
    }
}

/// `s` with every trailing repetition of `suffix` removed.
pub open spec fn strip_suffixes(s: Seq<char>, suffix: Seq<char>) -> Seq<char>
    decreases s.len(),
{
    if suffix.len() > 0 && suffix.len() <= s.len() && s.subrange(s.len() - suffix.len(), s.len() as int) == suffix {
        strip_suffixes(s.subrange(0, s.len() - suffix.len()), suffix)
    } else {
        s
    }
}

fn last_segment_of(s: &str) -> (r: String)
    ensures
        r@ == last_segment(s@),
{
    proof {
        reveal_strlit("/");
    }
    let n = s.unicode_len();
    let mut j = n;
    assert(s@.subrange(0, n as int) =~= s@);
    assert(s@ + s@.subrange(n as int, n as int) =~= s@);
    while j > 0 && s.get_char(j - 1) != '/'
        invariant
            j <= n,
            n == s@.len(),
            last_segment(s@) == last_segment(s@.subrange(0, j as int)) + s@.subrange(j as int, n as int),
        decreases j,
    {
        let ghost p = s@.subrange(0, j as int);
        assert(p.drop_last() =~= s@.subrange(0, j - 1));
        assert(last_segment(p) == last_segment(p.drop_last()).push(p.last()));
        assert(s@.subrange(j - 1, n as int) =~= seq![p.last()] + s@.subrange(j as int, n as int));
        assert(last_segment(p.drop_last()).push(p.last()) + s@.subrange(j as int, n as int)
            =~= last_segment(p.drop_last()) + s@.subrange(j - 1, n as int));
        j = j - 1;
    }
    proof {
        let p = s@.subrange(0, j as int);
        assert(last_segment(p) == Seq::<char>::empty());
        assert(Seq::<char>::empty() + s@.subrange(j as int, n as int) =~= s@.subrange(j as int, n as int));
    }
    s.substring_char(j, n).to_owned()
}

fn strip_suffixes_of(s: &str, suffix: &str) -> (r: String)
    requires
        suffix@.len() > 0,
    ensures
        r@ == strip_suffixes(s@, suffix@),
{
    let mut cur = s.to_owned();
    let m = suffix.unicode_len();
    while ends_with(cur.as_str(), suffix)
        invariant
            m == suffix@.len(),
            m > 0,
            strip_suffixes(cur@, suffix@) == strip_suffixes(s@, suffix@),
        decreases cur@.len(),
    {
        let n = cur.as_str().unicode_len();
        let next = cur.as_str().substring_char(0, n - m).to_owned();
        cur = next;
    }
    cur
}

/// Where a Zig distribution goes once unpacked.
pub struct Layout {
    /// The archive's file name: the last segment of its URL.
    pub file_name: String,
    /// The directory the archive unpacks into: the file name without its
    /// `.tar.xz` and `.zip` endings.
    pub directory: String,
    /// The compiler's file name: `zig.exe` on a Windows host, else `zig`.
    pub executable: String,
    /// The archive is a zip file (else an xz-compressed tar file).
    pub is_zip: bool,
}

/// The layout of the distribution at `url` for the build host `host`.
pub fn layout(url: &str, host: &str) -> (l: Layout)
    ensures
        l.file_name@ == last_segment(url@),
        l.directory@ == strip_suffixes(strip_suffixes(last_segment(url@), ".tar.xz"@), ".zip"@),
        l.executable@ == if exists|i: int| occurs_at(host@, "windows"@, i) { "zig.exe"@ } else { "zig"@ },
        l.is_zip == (".zip"@.len() <= url@.len() && url@.subrange(url@.len() - ".zip"@.len(), url@.len() as int) == ".zip"@),
{
    proof {
        reveal_strlit(".tar.xz");
        reveal_strlit(".zip");
    }
    let file_name = last_segment_of(url);
    let without_tar = strip_suffixes_of(file_name.as_str(), ".tar.xz");
    let directory = strip_suffixes_of(without_tar.as_str(), ".zip");
    let executable = if contains_text(host, "windows") {
        String::from_str("zig.exe")
    } else {
        String::from_str("zig")
    };
    Layout { file_name, directory, executable, is_zip: ends_with(url, ".zip") }
}

/// A cached compiler is current when its marker file holds the expected
/// checksum.
pub fn cache_marker_matches(marker: Option<&str>, checksum: &str) -> (r: bool)
    ensures
        r == (match marker {
            Some(m) => m@ == checksum@,
            None => false,
        }),
{
    match marker {
        Some(m) => str_eq(m, checksum),
        None => false,
    }
}

/// Why preparing a Zig distribution failed.
pub enum ToolchainError {
    /// The host has no entry in the pinned table.
    NoDistribution,
    /// The host's entry has no checksum.
    NoChecksum,
    /// The pinned table is not JSON; the parser's message.
    BadTable(String),
    /// The archive grew past [`MAX_ARCHIVE`] bytes.
    TooLarge,
    /// The archive's SHA-256 digest is not the pinned one.
    ChecksumMismatch,
    /// The xz stream could not be decompressed; the decoder's message.
    Decompress(String),
}

impl ToolchainError {
    /// The error's text.
    pub fn message(&self) -> (s: String)
        ensures
            s@ == match self {
                ToolchainError::NoDistribution => "No automatic Zig distribution for this host; set ZIG"@,
                ToolchainError::NoChecksum => "Zig checksum"@,
                ToolchainError::BadTable(m) => "pinned Zig toolchains: "@ + m@,
                ToolchainError::TooLarge => "Zig archive exceeds 200 MiB"@,
                ToolchainError::ChecksumMismatch => "Zig archive checksum mismatch"@,
                ToolchainError::Decompress(m) => m@,
            },
    {
        match self {
            ToolchainError::NoDistribution => String::from_str("No automatic Zig distribution for this host; set ZIG"),
            ToolchainError::NoChecksum => String::from_str("Zig checksum"),
            ToolchainError::BadTable(m) => {
                let mut s = String::from_str("pinned Zig toolchains: ");
                s.append(m.as_str());
                s
            },
            ToolchainError::TooLarge => String::from_str("Zig archive exceeds 200 MiB"),
            ToolchainError::ChecksumMismatch => String::from_str("Zig archive checksum mismatch"),
            ToolchainError::Decompress(m) => m.clone(),
        }
    }
}

/// A pinned distribution: where to download it and its SHA-256 digest in
/// lowercase hexadecimal.
pub struct Distribution {
    pub url: String,
    pub checksum: String,
}

/// The host's entry of the pinned table: it must give an archive URL and its
/// checksum.
pub fn select_distribution(tarball: Option<String>, shasum: Option<String>) -> (r: Result<Distribution, ToolchainError>)
    ensures
        tarball is None ==> r matches Err(ToolchainError::NoDistribution),
        tarball is Some && shasum is None ==> r matches Err(ToolchainError::NoChecksum),
        tarball matches Some(u) ==> (shasum matches Some(c) ==> (r matches Ok(d) && d.url == u && d.checksum == c)),
{
    match tarball {
        None => Err(ToolchainError::NoDistribution),
        Some(url) => match shasum {
            None => Err(ToolchainError::NoChecksum),
            Some(checksum) => Ok(Distribution { url, checksum }),
        },
    }
}

/// Counts the bytes of a download against [`MAX_ARCHIVE`].
pub struct DownloadBudget {
    total: usize,
}

impl DownloadBudget {
    /// Bytes received so far.
    pub closed spec fn received(&self) -> nat {
        self.total as nat
    }

    pub fn new() -> (b: DownloadBudget)
        ensures
            b.received() == 0,
    {
        DownloadBudget { total: 0 }
    }

    /// Records `count` more bytes; fails once the total exceeds the limit.
    pub fn add(&mut self, count: usize) -> (r: Result<(), ToolchainError>)
        requires
            old(self).received() <= MAX_ARCHIVE,
        ensures
            old(self).received() + count > MAX_ARCHIVE ==> (r matches Err(ToolchainError::TooLarge)
                && final(self).received() == old(self).received()),
            old(self).received() + count <= MAX_ARCHIVE ==> r is Ok && final(self).received()
                == old(self).received() + count,
    {
        if count > MAX_ARCHIVE - self.total {
            return Err(ToolchainError::TooLarge);
        }
        self.total = self.total + count;
        Ok(())
    }
}

/// The SHA-256 digest of a byte string.
pub uninterp spec fn sha256(data: Seq<u8>) -> Seq<u8>;

/// `sha2::Sha256::digest`: the SHA-256 digest of `data`, 32 bytes.
#[verifier::external_body]
fn sha256_digest(data: &[u8]) -> (r: Vec<u8>)
    ensures
        r@ == sha256(data@),
        r@.len() == 32,
{
    <sha2::Sha256 as sha2::Digest>::digest(data).to_vec()
}

/// Whether a digest, in lowercase hexadecimal, is the pinned checksum.
pub fn digest_matches(digest: &[u8], checksum: &str) -> (r: bool)
    ensures
        r == (hex_lower(digest@) == checksum@),
{
    let hex = to_hex_lower(digest);
    str_eq(hex.as_str(), checksum)
}

/// Whether the downloaded archive has the pinned checksum.
pub fn archive_matches(data: &[u8], checksum: &str) -> (r: bool)
    ensures
        r == (hex_lower(sha256(data@)) == checksum@),
{
    let digest = sha256_digest(data);
    digest_matches(digest.as_slice(), checksum)
}

/// What an xz stream decompresses to, if it is a valid one.
pub uninterp spec fn xz_decoded(data: Seq<u8>) -> Option<Seq<u8>>;

/// The four bytes of `data` at offset `q` are the little-endian word
/// `0xFFFFFFFF`.
pub open spec fn ones_word_at(data: Seq<u8>, q: int) -> bool {
    &&& 0 <= q
    &&& q + 4 <= data.len()
    &&& data[q] == 0xFF
    &&& data[q + 1] == 0xFF
    &&& data[q + 2] == 0xFF
    &&& data[q + 3] == 0xFF
}

/// `data` holds the word `0xFFFFFFFF` at an offset that is a multiple of
/// four.
pub open spec fn has_aligned_ones_word(data: Seq<u8>) -> bool {
    exists|q: int| q % 4 == 0 && #[trigger] ones_word_at(data, q)
}

/// Whether `data` holds the word `0xFFFFFFFF` at an offset that is a
/// multiple of four: the xz decoder's stream footer could then carry a
/// backward size it cannot check.
pub fn holds_aligned_ones_word(data: &[u8]) -> (r: bool)
    ensures
        r == has_aligned_ones_word(data@),
{
    let mut q: usize = 0;
    while q < data.len() && data.len() - q >= 4
        invariant
            q <= data.len(),
            q % 4 == 0,
            forall|k: int| 0 <= k < q && k % 4 == 0 ==> !#[trigger] ones_word_at(data@, k),
        decreases data.len() - q,
    {
        if data[q] == 0xFF && data[q + 1] == 0xFF && data[q + 2] == 0xFF && data[q + 3] == 0xFF {
            assert(ones_word_at(data@, q as int));
            return true;
        }
        q = q + 4;
    }
    false
}

/// `lzma_rs::xz_decompress` from a byte slice into a vector: the
/// decompressed bytes, or the decoder's error message. The decoder reads the
/// stream footer's backward size, a little-endian `u32`, at an offset that
/// is a multiple of four (the 12-byte stream header, each block and the
/// index are padded to four bytes), and computes `(size + 1) << 2`, which
/// overflows, and panics where overflow is checked, for `0xFFFFFFFF`; the
/// `requires` leaves out every input holding that word at such an offset.
#[verifier::external_body]
fn xz_decompress(data: &[u8]) -> (r: Result<Vec<u8>, String>)
    requires
        !has_aligned_ones_word(data@),
    ensures
        match xz_decoded(data@) {
            Some(out) => r matches Ok(v) && v@ == out,
            None => r is Err,
        },
{
    let mut output = Vec::new();
    match lzma_rs::xz_decompress(&mut &data[..], &mut output) {
        Ok(()) => Ok(output),
        Err(error) => Err(error.to_string()),
    }
}

/// How a verified archive is unpacked.
pub enum Unpack {
    /// Extract the zip archive.
    Zip,
    /// Unpack this tar archive.
    Tar(Vec<u8>),
}

/// Turns the outcome of decompressing an xz stream into the tar archive to
/// unpack.
pub fn tar_from_xz(decoded: Result<Vec<u8>, String>) -> (r: Result<Unpack, ToolchainError>)
    ensures
        decoded matches Ok(v) ==> (r matches Ok(Unpack::Tar(t)) && t@ == v@),
        decoded matches Err(m) ==> (r matches Err(ToolchainError::Decompress(n)) && n@ == m@),
{
    match decoded {
        Ok(tar) => Ok(Unpack::Tar(tar)),
        Err(message) => Err(ToolchainError::Decompress(message)),
    }
}

/// Checks a downloaded archive against its pinned checksum and decides how
/// to unpack it: a zip archive as it is, an xz-compressed tar archive after
/// decompression. An xz archive holding the word `0xFFFFFFFF` at an offset
/// that is a multiple of four is not handed to the decoder (see
/// [`holds_aligned_ones_word`]) and fails to decompress.
pub fn prepare_archive(data: &[u8], checksum: &str, is_zip: bool) -> (r: Result<Unpack, ToolchainError>)
    ensures
        hex_lower(sha256(data@)) != checksum@ ==> r matches Err(ToolchainError::ChecksumMismatch),
        hex_lower(sha256(data@)) == checksum@ && is_zip ==> r matches Ok(Unpack::Zip),
        hex_lower(sha256(data@)) == checksum@ && !is_zip && has_aligned_ones_word(data@) ==> (r matches Err(
            ToolchainError::Decompress(m),
        ) && m@ == "xz archive holds the word 0xFFFFFFFF at a four-byte boundary; not decoded"@),
        hex_lower(sha256(data@)) == checksum@ && !is_zip && !has_aligned_ones_word(data@) ==> match xz_decoded(data@) {
            Some(out) => r matches Ok(Unpack::Tar(t)) && t@ == out,
            None => r matches Err(ToolchainError::Decompress(_)),
        },
{
    if !archive_matches(data, checksum) {
        return Err(ToolchainError::ChecksumMismatch);
    }
    if is_zip {
        return Ok(Unpack::Zip);
    }
    if holds_aligned_ones_word(data) {
        return Err(ToolchainError::Decompress(String::from_str("xz archive holds the word 0xFFFFFFFF at a four-byte boundary; not decoded")));
    }
    tar_from_xz(xz_decompress(data))
}

/// A host's entry of a pinned table, read as JSON: its `tarball` and
/// `shasum` members where they are strings; `None` when the table is not
/// JSON.
pub uninterp spec fn pinned_table_entry(table: Seq<char>, host: Seq<char>) -> Option<(Option<Seq<char>>, Option<Seq<char>>)>;

/// `serde_json::from_str` of the pinned table, then its member named by the
/// host and that member's `tarball` and `shasum` strings, by serde_json's
/// indexing and `as_str`. The entry depends on the two texts alone; the
/// parser's error text is handed back on failure.
#[verifier::external_body]
fn pinned_entry(table: &str, host: &str) -> (r: Result<(Option<String>, Option<String>), String>)
    ensures
        match pinned_table_entry(table@, host@) {
            Some((u, c)) => r matches Ok((a, b)) && opt_view(a) == u && opt_view(b) == c,
            None => r is Err,
        },
{
    let toolchains: serde_json::Value = serde_json::from_str(table).map_err(|e| e.to_string())?;
    let entry = &toolchains[host];
    Ok((entry["tarball"].as_str().map(str::to_owned), entry["shasum"].as_str().map(str::to_owned)))
}

/// The distribution pinned for `host` in the table `table`: the table must be
/// JSON, and the host's entry must give an archive URL and its checksum.
pub fn distribution_for(table: &str, host: &str) -> (r: Result<Distribution, ToolchainError>)
    ensures
        match pinned_table_entry(table@, host@) {
            None => r matches Err(ToolchainError::BadTable(_)),
            Some((None, _)) => r matches Err(ToolchainError::NoDistribution),
            Some((Some(_), None)) => r matches Err(ToolchainError::NoChecksum),
            Some((Some(u), Some(c))) => r matches Ok(d) && d.url@ == u && d.checksum@ == c,
        },
{
    match pinned_entry(table, host) {
        Err(message) => Err(ToolchainError::BadTable(message)),
        Ok((tarball, shasum)) => select_distribution(tarball, shasum),
    }
}

} // verus!
