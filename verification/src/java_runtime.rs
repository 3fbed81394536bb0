//! What a Java runtime is: its version (with the major number read from the
//! version text), its vendor and its architecture, each normalized to a kind.
use std::path::PathBuf;

use vstd::prelude::*;

use crate::external::{parent_of, path_parent};
use crate::java_metadata::{
    probe_run_gives, release_offers, value_check, validate_metadata_value, JavaMetadata,
    JavaProbe, JavaProbeOutput, JavaRuntimeError, MAX_METADATA_VALUE_BYTES,
};
use crate::text::{
    ascii_lowercase, chars_eq, chars_of, contains_chars, contains_seq, is_ascii_digit_char, trim,
    trim_of, trimmed, string_from_chars, sub_chars, to_ascii_lowercase_chars, TrimSet,
};

verus! {

/// The largest `release` file read, in bytes.
pub const MAX_RELEASE_FILE_BYTES: u64 = 65536;

/// `MAX_RELEASE_FILE_BYTES`.
pub fn max_release_file_bytes() -> (r: u64)
    ensures
        r == 64 * 1024,
{
    MAX_RELEASE_FILE_BYTES
}

/// `MAX_METADATA_VALUE_BYTES`.
pub fn max_metadata_value_bytes() -> (r: usize)
    ensures
        r == 512,
{
    MAX_METADATA_VALUE_BYTES
}

/// A `release` file of `size` bytes may be read; a larger one is refused.
pub fn check_release_size(path: PathBuf, size: u64) -> (r: Result<(), JavaRuntimeError>)
    ensures
        size <= MAX_RELEASE_FILE_BYTES ==> r is Ok,
        size > MAX_RELEASE_FILE_BYTES ==> r == Err::<(), _>(
            JavaRuntimeError::ReleaseFileTooLarge { path, size, max_size: MAX_RELEASE_FILE_BYTES },
        ),
{
    if size > MAX_RELEASE_FILE_BYTES {
        return Err(
            JavaRuntimeError::ReleaseFileTooLarge { path, size, max_size: MAX_RELEASE_FILE_BYTES },
        );
    }
    Ok(())
}

/// The value of a string of decimal digits.
pub open spec fn digits_value(s: Seq<char>) -> nat
    decreases s.len(),
{
    if s.len() == 0 {
        0
    } else {
        digits_value(s.drop_last()) * 10 + ((s.last() as u32) - ('0' as u32)) as nat
    }
}

pub open spec fn all_digits(s: Seq<char>) -> bool {
    forall|i: int| 0 <= i < s.len() ==> is_ascii_digit_char(#[trigger] s[i])
}

/// `str::parse::<u16>`: an optional `+`, then one or more decimal digits whose
/// value fits in a `u16`.
pub open spec fn parse_u16(s: Seq<char>) -> Option<u16> {
    let d = if s.len() > 0 && s[0] == '+' {
        s.drop_first()
    } else {
        s
    };
    if d.len() > 0 && all_digits(d) && digits_value(d) <= 65535 {
        Some(digits_value(d) as u16)
    } else {
        None
    }
}

/// A longer digit string is worth at least as much as its prefix.
proof fn lemma_digits_value_grows(s: Seq<char>, k: int)
    requires
        0 <= k <= s.len(),
        all_digits(s),
    ensures
        digits_value(s.subrange(0, k)) <= digits_value(s),
    decreases s.len() - k,
{
    if k < s.len() {
        lemma_digits_value_grows(s, k + 1);
        assert(s.subrange(0, k + 1).drop_last() =~= s.subrange(0, k));
        assert(is_ascii_digit_char(s[k]));
    } else {
        assert(s.subrange(0, k) =~= s);
    }
}

/// `parse_u16` on characters.
fn parse_u16_chars(s: &[char]) -> (r: Option<u16>)
    ensures
        r == parse_u16(s@),
{
    let n = s.len();
    let start: usize = if n > 0 && s[0] == '+' {
        1
    } else {
        0
    };
    let ghost d = if s@.len() > 0 && s@[0] == '+' {
        s@.drop_first()
    } else {
        s@
    };
    proof {
        assert(d =~= s@.subrange(start as int, n as int));
    }
    if start == n {
        return None;
    }
    let mut value: u32 = 0;
    let mut i = start;
    while i < n
        invariant
            start <= i <= n,
            n == s@.len(),
            d == s@.subrange(start as int, n as int),
            d == (if s@.len() > 0 && s@[0] == '+' {
                s@.drop_first()
            } else {
                s@
            }),
            start < n,
            all_digits(d.subrange(0, i - start)),
            value == digits_value(d.subrange(0, i - start)),
            value <= 65535,
        decreases n - i,
    {
        let c = s[i];
        if !('0' <= c && c <= '9') {
            proof {
                assert(d[i - start] == c);
            }
            return None;
        }
        let digit = (c as u32) - ('0' as u32);
        let next = value * 10 + digit;
        proof {
            assert(d.subrange(0, i - start + 1).drop_last() =~= d.subrange(0, i - start));
            assert(d.subrange(0, i - start + 1).last() == c);
        }
        if next > 65535 {
            proof {
                if all_digits(d) {
                    lemma_digits_value_grows(d, i - start + 1);
                }
            }
            return None;
        }
        value = next;
        i += 1;
    }
    proof {
        assert(d.subrange(0, n - start) =~= d);
    }
    Some(value as u16)
}

/// The version text a raw value stands for: trimmed, then without surrounding quotes.
pub open spec fn version_text(raw: Seq<char>) -> Seq<char> {
    trim_of(trim(raw), TrimSet::DoubleQuote)
}

pub open spec fn is_version_separator(c: char) -> bool {
    c == '.' || c == '_' || c == '-'
}

/// The characters of `s` up to its first separator.
pub open spec fn first_segment(s: Seq<char>) -> Seq<char>
    decreases s.len(),
{
    if s.len() == 0 || is_version_separator(s[0]) {
        Seq::empty()
    } else {
        seq![s[0]] + first_segment(s.drop_first())
    }
}

/// The text of the major version: the first segment, after a leading "1."
/// (the old `1.8` style) is dropped.
pub open spec fn major_text(t: Seq<char>) -> Seq<char> {
    if t.len() >= 2 && t[0] == '1' && t[1] == '.' {
        first_segment(t.subrange(2, t.len() as int))
    } else {
        first_segment(t)
    }
}

/// A Java version: its text and its major number.
#[derive(Debug, Clone, PartialEq, Eq)]
pub struct JavaVersion {
    pub raw: String,
    pub major: u16,
}

/// The end of the first segment of `s[from..]`.
fn segment_end(s: &[char], from: usize) -> (r: usize)
    requires
        from <= s@.len(),
    ensures
        from <= r <= s@.len(),
        s@.subrange(from as int, r as int) == first_segment(s@.subrange(from as int, s@.len() as int)),
{
    let n = s.len();
    let mut i = from;
    while i < n && !(s[i] == '.' || s[i] == '_' || s[i] == '-')
        invariant
            from <= i <= n,
            n == s@.len(),
            forall|k: int| from <= k < i ==> !is_version_separator(#[trigger] s@[k]),
        decreases n - i,
    {
        i += 1;
    }
    proof {
        lemma_first_segment(s@.subrange(from as int, n as int), i - from);
        assert(s@.subrange(from as int, n as int).subrange(0, i - from) =~= s@.subrange(
            from as int,
            i as int,
        ));
    }
    i
}

/// The first segment ends at the first separator, or at the end.
proof fn lemma_first_segment(s: Seq<char>, k: int)
    requires
        0 <= k <= s.len(),
        forall|j: int| 0 <= j < k ==> !is_version_separator(#[trigger] s[j]),
        k == s.len() || is_version_separator(s[k]),
    ensures
        first_segment(s) == s.subrange(0, k),
    decreases k,
{
    if k == 0 {
        assert(s.subrange(0, 0) =~= Seq::<char>::empty());
    } else {
        lemma_first_segment(s.drop_first(), k - 1);
        assert(s.subrange(0, k) =~= seq![s[0]] + s.drop_first().subrange(0, k - 1));
    }
}

/// The major number of a version text: its major text read as a `u16`.
pub open spec fn version_major(t: Seq<char>) -> Option<u16> {
    let m = major_text(t);
    if m.len() > 0 {
        parse_u16(m)
    } else {
        None
    }
}

/// `r` is what the raw version text `raw` reads to: the version text is
/// checked like any metadata value (as "version"), and its major text must be
/// a `u16`; the error for a bad number carries the cleaned text.
pub open spec fn version_parse_is(raw: Seq<char>, r: Result<JavaVersion, JavaRuntimeError>) -> bool {
    match value_check("version", version_text(raw)) {
        Some(e) => r == Err::<JavaVersion, _>(e),
        None => match version_major(version_text(raw)) {
            Some(major) => r matches Ok(v) && v.raw@ == version_text(raw) && v.major == major,
            None => r matches Err(JavaRuntimeError::InvalidVersion { raw: s }) && s@ == version_text(
                raw,
            ),
        },
    }
}

impl JavaVersion {
    /// Reads a version from its raw text (see `version_parse_is`).
    pub fn parse(raw: &str) -> (r: Result<Self, JavaRuntimeError>)
        ensures
            version_parse_is(raw@, r),
    {
        let chars = chars_of(raw);
        let outer = trimmed(chars.as_slice(), TrimSet::WhiteSpace);
        let inner = trimmed(outer.as_slice(), TrimSet::DoubleQuote);
        let text = validate_metadata_value("version", string_from_chars(inner.as_slice()))?;
        let n = inner.len();
        let from: usize = if n >= 2 && inner[0] == '1' && inner[1] == '.' {
            2
        } else {
            0
        };
        let end = segment_end(inner.as_slice(), from);
        let part = sub_chars(inner.as_slice(), from, end);
        proof {
            assert(inner@.subrange(0, n as int) =~= inner@);
            assert(part@ == major_text(inner@));
        }
        if part.len() == 0 {
            return Err(JavaRuntimeError::InvalidVersion { raw: text });
        }
        match parse_u16_chars(part.as_slice()) {
            Some(major) => Ok(JavaVersion { raw: text, major }),
            None => Err(JavaRuntimeError::InvalidVersion { raw: text }),
        }
    }
}

/// A vendor text and the vendor it names.
#[derive(Debug, Clone, PartialEq, Eq)]
pub struct JavaVendor {
    pub raw: String,
    pub kind: JavaVendorKind,
}

#[derive(Debug, Clone, Copy, PartialEq, Eq, Structural)]
pub enum JavaVendorKind {
    Temurin,
    Zulu,
    Liberica,
    Oracle,
    OpenJdk,
    Microsoft,
    Corretto,
    Unknown,
}

/// The vendor a text names: the first rule whose word its ASCII-lowercased form
/// contains, in this order.
pub open spec fn vendor_kind_of(raw: Seq<char>) -> JavaVendorKind {
    let n = ascii_lowercase(raw);
    if contains_seq(n, "temurin"@) || contains_seq(n, "adoptium"@) || contains_seq(
        n,
        "eclipse foundation"@,
    ) {
        JavaVendorKind::Temurin
    } else if contains_seq(n, "zulu"@) || contains_seq(n, "azul"@) {
        JavaVendorKind::Zulu
    } else if contains_seq(n, "liberica"@) || contains_seq(n, "bellsoft"@) {
        JavaVendorKind::Liberica
    } else if contains_seq(n, "oracle"@) {
        JavaVendorKind::Oracle
    } else if contains_seq(n, "microsoft"@) {
        JavaVendorKind::Microsoft
    } else if contains_seq(n, "corretto"@) || contains_seq(n, "amazon"@) {
        JavaVendorKind::Corretto
    } else if contains_seq(n, "openjdk"@) {
        JavaVendorKind::OpenJdk
    } else {
        JavaVendorKind::Unknown
    }
}

/// Whether `hay` contains the text of `word`.
fn has_word(hay: &[char], word: &str) -> (r: bool)
    ensures
        r == contains_seq(hay@, word@),
{
    let w = chars_of(word);
    contains_chars(hay, w.as_slice())
}

/// Whether `s` is exactly the text of `word`.
fn is_word(s: &[char], word: &str) -> (r: bool)
    ensures
        r == (s@ == word@),
{
    let w = chars_of(word);
    chars_eq(s, w.as_slice())
}

impl JavaVendor {
    /// The vendor named by `raw` (see `vendor_kind_of`), keeping the text.
    pub fn from_raw(raw: String) -> (r: Self)
        ensures
            r.raw == raw,
            r.kind == vendor_kind_of(raw@),
    {
        let chars = chars_of(raw.as_str());
        let lower = to_ascii_lowercase_chars(chars.as_slice());
        let n = lower.as_slice();
        let kind = if has_word(n, "temurin") || has_word(n, "adoptium") || has_word(
            n,
            "eclipse foundation",
        ) {
            JavaVendorKind::Temurin
        } else if has_word(n, "zulu") || has_word(n, "azul") {
            JavaVendorKind::Zulu
        } else if has_word(n, "liberica") || has_word(n, "bellsoft") {
            JavaVendorKind::Liberica
        } else if has_word(n, "oracle") {
            JavaVendorKind::Oracle
        } else if has_word(n, "microsoft") {
            JavaVendorKind::Microsoft
        } else if has_word(n, "corretto") || has_word(n, "amazon") {
            JavaVendorKind::Corretto
        } else if has_word(n, "openjdk") {
            JavaVendorKind::OpenJdk
        } else {
            JavaVendorKind::Unknown
        };
        JavaVendor { raw, kind }
    }
}

/// The lowercase name of a vendor kind.
pub open spec fn vendor_label(kind: JavaVendorKind) -> Seq<char> {
    match kind {
        JavaVendorKind::Temurin => "temurin"@,
        JavaVendorKind::Zulu => "zulu"@,
        JavaVendorKind::Liberica => "liberica"@,
        JavaVendorKind::Oracle => "oracle"@,
        JavaVendorKind::OpenJdk => "openjdk"@,
        JavaVendorKind::Microsoft => "microsoft"@,
        JavaVendorKind::Corretto => "corretto"@,
        JavaVendorKind::Unknown => "unknown"@,
    }
}

impl JavaVendorKind {
    /// The kind's name, as it is displayed.
    pub fn to_string(&self) -> (r: String)
        ensures
            r@ == vendor_label(*self),
    {
        let s = match self {
            JavaVendorKind::Temurin => "temurin",
            JavaVendorKind::Zulu => "zulu",
            JavaVendorKind::Liberica => "liberica",
            JavaVendorKind::Oracle => "oracle",
            JavaVendorKind::OpenJdk => "openjdk",
            JavaVendorKind::Microsoft => "microsoft",
            JavaVendorKind::Corretto => "corretto",
            JavaVendorKind::Unknown => "unknown",
        };
        s.to_owned()
    }
}

/// An architecture text and the architecture it names.
#[derive(Debug, Clone, PartialEq, Eq)]
pub struct JavaArchitecture {
    pub raw: String,
    pub kind: JavaArchitectureKind,
}

#[derive(Debug, Clone, Copy, PartialEq, Eq, Structural)]
pub enum JavaArchitectureKind {
    X86_64,
    Aarch64,
    X86,
    Arm,
    Unknown,
}

/// The architecture a text names, by its whole ASCII-lowercased form.
pub open spec fn architecture_kind_of(raw: Seq<char>) -> JavaArchitectureKind {
    let n = ascii_lowercase(raw);
    if n == "x86_64"@ || n == "amd64"@ {
        JavaArchitectureKind::X86_64
    } else if n == "aarch64"@ || n == "arm64"@ {
        JavaArchitectureKind::Aarch64
    } else if n == "x86"@ || n == "i386"@ || n == "i486"@ || n == "i586"@ || n == "i686"@ {
        JavaArchitectureKind::X86
    } else if n == "arm"@ || n == "arm32"@ {
        JavaArchitectureKind::Arm
    } else {
        JavaArchitectureKind::Unknown
    }
}

impl JavaArchitecture {
    /// The architecture named by `raw` (see `architecture_kind_of`), keeping the text.
    pub fn from_raw(raw: String) -> (r: Self)
        ensures
            r.raw == raw,
            r.kind == architecture_kind_of(raw@),
    {
        let chars = chars_of(raw.as_str());
        let lower = to_ascii_lowercase_chars(chars.as_slice());
        let n = lower.as_slice();
        let kind = if is_word(n, "x86_64") || is_word(n, "amd64") {
            JavaArchitectureKind::X86_64
        } else if is_word(n, "aarch64") || is_word(n, "arm64") {
            JavaArchitectureKind::Aarch64
        } else if is_word(n, "x86") || is_word(n, "i386") || is_word(n, "i486") || is_word(
            n,
            "i586",
        ) || is_word(n, "i686") {
            JavaArchitectureKind::X86
        } else if is_word(n, "arm") || is_word(n, "arm32") {
            JavaArchitectureKind::Arm
        } else {
            JavaArchitectureKind::Unknown
        };
        JavaArchitecture { raw, kind }
    }
}

/// The name of an architecture kind, as it is displayed.
pub open spec fn architecture_label(kind: JavaArchitectureKind) -> Seq<char> {
    match kind {
        JavaArchitectureKind::X86_64 => "x86_64"@,
        JavaArchitectureKind::Aarch64 => "aarch64"@,
        JavaArchitectureKind::X86 => "x86"@,
        JavaArchitectureKind::Arm => "arm"@,
        JavaArchitectureKind::Unknown => "unknown"@,
    }
}

impl JavaArchitectureKind {
    /// The kind's name, as it is displayed.
    pub fn to_string(&self) -> (r: String)
        ensures
            r@ == architecture_label(*self),
    {
        let s = match self {
            JavaArchitectureKind::X86_64 => "x86_64",
            JavaArchitectureKind::Aarch64 => "aarch64",
            JavaArchitectureKind::X86 => "x86",
            JavaArchitectureKind::Arm => "arm",
            JavaArchitectureKind::Unknown => "unknown",
        };
        s.to_owned()
    }
}

/// A detected Java runtime.
#[derive(Debug, Clone, PartialEq, Eq)]
pub struct JavaRuntimeInfo {
    pub java_home: PathBuf,
    pub java_executable: PathBuf,
    pub version: JavaVersion,
    pub vendor: JavaVendor,
    pub architecture: JavaArchitecture,
}

/// `r` is the runtime at `java_home` with `java_executable` that `metadata`
/// describes: refused with the version's error when its version text does not
/// read, else with the version read, and the vendor and architecture texts
/// kept and classified.
pub open spec fn runtime_described(
    java_home: PathBuf,
    java_executable: PathBuf,
    metadata: JavaMetadata,
    r: Result<JavaRuntimeInfo, JavaRuntimeError>,
) -> bool {
    match r {
        Err(e) => version_parse_is(metadata.version@, Err(e)),
        Ok(info) => {
            &&& version_parse_is(metadata.version@, Ok(info.version))
            &&& info.java_home == java_home
            &&& info.java_executable == java_executable
            &&& info.vendor.raw == metadata.vendor
            &&& info.vendor.kind == vendor_kind_of(metadata.vendor@)
            &&& info.architecture.raw == metadata.architecture
            &&& info.architecture.kind == architecture_kind_of(metadata.architecture@)
        },
    }
}

/// `r` is the runtime that the metadata reading `read` leads to: its error, or
/// the runtime that its metadata describes.
pub open spec fn runtime_from_read(
    java_home: PathBuf,
    java_executable: PathBuf,
    read: Result<JavaMetadata, JavaRuntimeError>,
    r: Result<JavaRuntimeInfo, JavaRuntimeError>,
) -> bool {
    match read {
        Err(e) => r == Err::<JavaRuntimeInfo, _>(e),
        Ok(m) => runtime_described(java_home, java_executable, m, r),
    }
}

/// `r` is the runtime described by the `release` file text `release` when
/// there is one and it reads; else the runtime that an answer `probe` may give
/// on `java_executable` leads to.
pub open spec fn runtime_resolved<P: JavaProbe>(
    probe: &P,
    java_home: PathBuf,
    java_executable: PathBuf,
    release: Option<Seq<char>>,
    r: Result<JavaRuntimeInfo, JavaRuntimeError>,
) -> bool {
    exists|offer: Option<JavaMetadata>|
        #[trigger] release_offers(release, offer) && match offer {
            Some(m) => runtime_described(java_home, java_executable, m, r),
            None => exists|
                run: Result<JavaProbeOutput, JavaRuntimeError>,
                read: Result<JavaMetadata, JavaRuntimeError>,
            |
                #![trigger probe.may_answer(java_executable, run), probe_run_gives(run, read)]
                probe.may_answer(java_executable, run) && probe_run_gives(run, read)
                    && runtime_from_read(java_home, java_executable, read, r),
        }
}

/// The Java home of an executable at `java_executable`: the parent of its
/// directory (`<home>/bin/java`); refused when it has no such grandparent.
pub fn home_of_executable(java_executable: &PathBuf) -> (r: Result<PathBuf, JavaRuntimeError>)
    ensures
        match parent_of(*java_executable) {
            Some(bin) => match parent_of(bin) {
                Some(home) => r == Ok::<PathBuf, JavaRuntimeError>(home),
                None => r == Err::<PathBuf, _>(
                    JavaRuntimeError::ExecutableWithoutParent { path: *java_executable },
                ),
            },
            None => r == Err::<PathBuf, _>(
                JavaRuntimeError::ExecutableWithoutParent { path: *java_executable },
            ),
        },
{
    let bin_dir = match path_parent(java_executable) {
        Some(bin_dir) => bin_dir,
        None => {
            return Err(JavaRuntimeError::ExecutableWithoutParent { path: java_executable.clone() });
        },
    };
    match path_parent(&bin_dir) {
        Some(home) => Ok(home),
        None => Err(JavaRuntimeError::ExecutableWithoutParent { path: java_executable.clone() }),
    }
}

/// The text of `s`, if there is one.
pub open spec fn text_of(s: Option<&str>) -> Option<Seq<char>> {
    match s {
        Some(c) => Some(c@),
        None => None,
    }
}

/// The runtime at `java_home` with `java_executable`, described by the text of
/// its `release` file when there is one and it reads; else `probe` runs once,
/// on `java_executable`, and what it printed describes it. When the release
/// text reads, the probe does not run and its answers play no part.
pub fn resolve_runtime(
    java_home: PathBuf,
    java_executable: PathBuf,
    release: Option<&str>,
    probe: &impl JavaProbe,
) -> (r: Result<JavaRuntimeInfo, JavaRuntimeError>)
    ensures
        runtime_resolved(probe, java_home, java_executable, text_of(release), r),
{
    let offer = JavaMetadata::from_release_if_readable(release);
    let ghost home = java_home;
    let ghost exe = java_executable;
    match offer {
        Some(m) => {
            let r = JavaRuntimeInfo::from_metadata(java_home, java_executable, m);
            assert(release_offers(text_of(release), offer));
            r
        },
        None => {
            let read = JavaMetadata::from_probe_with(&java_executable, probe);
            let r = match read {
                Err(e) => Err(e),
                Ok(m) => JavaRuntimeInfo::from_metadata(java_home, java_executable, m),
            };
            proof {
                assert(release_offers(text_of(release), offer));
                let run = choose|run: Result<JavaProbeOutput, JavaRuntimeError>|
                    probe.may_answer(exe, run) && #[trigger] probe_run_gives(run, read);
                assert(probe.may_answer(exe, run) && probe_run_gives(run, read)
                    && runtime_from_read(home, exe, read, r));
            }
            r
        },
    }
}

impl JavaRuntimeInfo {
    /// The runtime at `java_home` with `java_executable`, described by `metadata`;
    /// refused when the version text is not a version.
    pub fn from_metadata(
        java_home: PathBuf,
        java_executable: PathBuf,
        metadata: JavaMetadata,
    ) -> (r: Result<Self, JavaRuntimeError>)
        ensures
            runtime_described(java_home, java_executable, metadata, r),
    {
        let version = JavaVersion::parse(metadata.version.as_str())?;
        Ok(
            JavaRuntimeInfo {
                java_home,
                java_executable,
                version,
                vendor: JavaVendor::from_raw(metadata.vendor),
                architecture: JavaArchitecture::from_raw(metadata.architecture),
            },
        )
    }
}

/// The three metadata texts, as the fuzz targets compare them.
#[derive(Debug, Clone, PartialEq, Eq)]
pub struct ParsedJavaMetadata {
    pub version: String,
    pub vendor: String,
    pub architecture: String,
}

impl From<JavaMetadata> for ParsedJavaMetadata {
    fn from(metadata: JavaMetadata) -> (r: Self) {
        ParsedJavaMetadata {
            version: metadata.version,
            vendor: metadata.vendor,
            architecture: metadata.architecture,
        }
    }
}

impl vstd::std_specs::convert::FromSpecImpl<JavaMetadata> for ParsedJavaMetadata {
    open spec fn obeys_from_spec() -> bool {
        true
    }

    open spec fn from_spec(metadata: JavaMetadata) -> ParsedJavaMetadata {
        ParsedJavaMetadata {
            version: metadata.version,
            vendor: metadata.vendor,
            architecture: metadata.architecture,
        }
    }
}

/// The plain texts of a reading: its three fields, or its error.
pub open spec fn parsed_from(read: Result<JavaMetadata, JavaRuntimeError>) -> Result<
    ParsedJavaMetadata,
    JavaRuntimeError,
> {
    match read {
        Ok(m) => Ok(
            ParsedJavaMetadata { version: m.version, vendor: m.vendor, architecture: m.architecture },
        ),
        Err(e) => Err(e),
    }
}

/// `JavaMetadata::from_release_file`, as plain texts.
pub fn parse_release_metadata(content: &str) -> (r: Result<ParsedJavaMetadata, JavaRuntimeError>)
    ensures
        exists|read: Result<JavaMetadata, JavaRuntimeError>|
            crate::java_metadata::release_file_gives(content@, read) && r == #[trigger] parsed_from(
                read,
            ),
        exists|values: crate::keyed::StringMap<String>|
            crate::java_metadata::parses_to(values, content@, crate::java_metadata::LineSyntax::Release)
                && parsed_result_is(r, crate::java_metadata::release_metadata(values)),
{
    let read = JavaMetadata::from_release_file(content);
    let ghost g = read;
    let r = match read {
        Ok(m) => Ok(ParsedJavaMetadata::from(m)),
        Err(e) => Err(e),
    };
    assert(r == parsed_from(g));
    r
}

/// `JavaMetadata::from_probe_output`, as plain texts.
pub fn parse_probe_metadata(stdout: &str, stderr: &str) -> (r: Result<
    ParsedJavaMetadata,
    JavaRuntimeError,
>)
    ensures
        exists|values: crate::keyed::StringMap<String>|
            crate::java_metadata::parses_to(
                values,
                stdout@ + seq!['\n'] + stderr@,
                crate::java_metadata::LineSyntax::Probe,
            ) && parsed_result_is(r, crate::java_metadata::probe_metadata(values)),
{
    match JavaMetadata::from_probe_output(stdout, stderr) {
        Ok(m) => Ok(ParsedJavaMetadata::from(m)),
        Err(e) => Err(e),
    }
}

/// `p` holds exactly the three texts of `r`, or the error of `r`.
pub open spec fn parsed_result_is(
    p: Result<ParsedJavaMetadata, JavaRuntimeError>,
    r: Result<(Seq<char>, Seq<char>, Seq<char>), JavaRuntimeError>,
) -> bool {
    match r {
        Ok((version, vendor, architecture)) => p matches Ok(md) && md.version@ == version
            && md.vendor@ == vendor && md.architecture@ == architecture,
        Err(e) => p == Err::<ParsedJavaMetadata, _>(e),
    }
}

/// `JavaVersion::parse`.
pub fn parse_java_version(raw: &str) -> (r: Result<JavaVersion, JavaRuntimeError>)
    ensures
        match value_check("version", version_text(raw@)) {
            Some(e) => r == Err::<JavaVersion, _>(e),
            None => match version_major(version_text(raw@)) {
                Some(major) => r matches Ok(v) && v.raw@ == version_text(raw@) && v.major == major,
                None => r matches Err(JavaRuntimeError::InvalidVersion { raw: s }) && s@
                    == version_text(raw@),
            },
        },
{
    JavaVersion::parse(raw)
}

/// The vendor kind a text names.
pub fn classify_vendor(raw: &str) -> (r: JavaVendorKind)
    ensures
        r == vendor_kind_of(raw@),
{
    JavaVendor::from_raw(raw.to_owned()).kind
}

/// The architecture kind a text names.
pub fn classify_architecture(raw: &str) -> (r: JavaArchitectureKind)
    ensures
        r == architecture_kind_of(raw@),
{
    JavaArchitecture::from_raw(raw.to_owned()).kind
}

/// A version that reads is never empty, and its text is a safe metadata value.
pub proof fn law_version_text_is_safe(raw: Seq<char>)
    ensures
        value_check("version", version_text(raw)) is None && version_major(version_text(raw))
            is Some ==> crate::java_metadata::is_safe_value(version_text(raw)),
{
    let t = version_text(raw);
    if value_check("version", t) is None && version_major(t) is Some {
        let m = major_text(t);
        let start: int = if t.len() >= 2 && t[0] == '1' && t[1] == '.' {
            2
        } else {
            0
        };
        assert(m.len() > 0);
        assert(m[0] == t[start]);
        let d = if m[0] == '+' {
            m.drop_first()
        } else {
            m
        };
        if m[0] != '+' {
            assert(all_digits(d));
            assert(is_ascii_digit_char(d[0]));
        }
        assert(!crate::text::is_white_space(t[start]));
    }
}

/// Every vendor kind and every architecture kind has a name to show.
pub proof fn law_kind_names_are_nonempty(vendor: JavaVendorKind, architecture: JavaArchitectureKind)
    ensures
        vendor_label(vendor).len() > 0,
        architecture_label(architecture).len() > 0,
{
    reveal_strlit("temurin");
    reveal_strlit("zulu");
    reveal_strlit("liberica");
    reveal_strlit("oracle");
    reveal_strlit("openjdk");
    reveal_strlit("microsoft");
    reveal_strlit("corretto");
    reveal_strlit("unknown");
    reveal_strlit("x86_64");
    reveal_strlit("aarch64");
    reveal_strlit("x86");
    reveal_strlit("arm");
}

/// Reading one version text twice gives the same version, or the same error.
pub proof fn law_version_reading_is_deterministic(
    raw: Seq<char>,
    a: Result<JavaVersion, JavaRuntimeError>,
    b: Result<JavaVersion, JavaRuntimeError>,
)
    requires
        version_parse_is(raw, a),
        version_parse_is(raw, b),
    ensures
        match (a, b) {
            (Ok(x), Ok(y)) => x.raw@ == y.raw@ && x.major == y.major,
            (
                Err(JavaRuntimeError::InvalidVersion { raw: s }),
                Err(JavaRuntimeError::InvalidVersion { raw: t }),
            ) => s@ == t@,
            (Err(e), Err(f)) => e == f,
            _ => false,
        },
{
}

/// Reading one `release` file text gives the same texts each time, and each
/// field it gives is safe text: not blank, within `MAX_METADATA_VALUE_BYTES`
/// bytes, with no control character.
pub proof fn law_parsed_release_metadata(
    content: Seq<char>,
    a: Result<JavaMetadata, JavaRuntimeError>,
    b: Result<JavaMetadata, JavaRuntimeError>,
)
    requires
        crate::java_metadata::release_file_gives(content, a),
        crate::java_metadata::release_file_gives(content, b),
    ensures
        match (parsed_from(a), parsed_from(b)) {
            (Ok(x), Ok(y)) => x.version@ == y.version@ && x.vendor@ == y.vendor@
                && x.architecture@ == y.architecture@,
            (Err(e), Err(f)) => e == f,
            _ => false,
        },
        parsed_from(a) matches Ok(p) ==> crate::java_metadata::is_safe_value(p.version@)
            && crate::java_metadata::is_safe_value(p.vendor@)
            && crate::java_metadata::is_safe_value(p.architecture@),
{
    crate::java_metadata::law_release_reading_is_deterministic(content, a, b);
    let va = choose|v: crate::keyed::StringMap<String>|
        crate::java_metadata::parses_to(v, content, crate::java_metadata::LineSyntax::Release)
            && crate::java_metadata::metadata_result_is(a, crate::java_metadata::release_metadata(v));
    crate::java_metadata::law_read_metadata_is_safe(va);
}

/// The architecture names, whatever their ASCII case: x86, i386, i486, i586
/// and i686 are 32-bit x86; x86_64 and amd64, and only they, are 64-bit x86;
/// aarch64 and arm64 are 64-bit ARM; arm and arm32 are 32-bit ARM; every other
/// text is unknown.
pub proof fn law_architecture_names(raw: Seq<char>)
    ensures
        ({
            let n = crate::text::ascii_lowercase(raw);
            &&& (n == "x86"@ || n == "i386"@ || n == "i486"@ || n == "i586"@ || n == "i686"@)
                ==> architecture_kind_of(raw) == JavaArchitectureKind::X86
            &&& (architecture_kind_of(raw) == JavaArchitectureKind::X86_64 <==> (n == "x86_64"@
                || n == "amd64"@))
            &&& (architecture_kind_of(raw) == JavaArchitectureKind::Aarch64 <==> (n == "aarch64"@
                || n == "arm64"@))
            &&& (architecture_kind_of(raw) == JavaArchitectureKind::Arm <==> (n == "arm"@ || n
                == "arm32"@))
            &&& (architecture_kind_of(raw) == JavaArchitectureKind::X86 <==> (n == "x86"@ || n
                == "i386"@ || n == "i486"@ || n == "i586"@ || n == "i686"@))
        }),
{
    reveal_strlit("x86");
    reveal_strlit("i386");
    reveal_strlit("i486");
    reveal_strlit("i586");
    reveal_strlit("i686");
    reveal_strlit("x86_64");
    reveal_strlit("amd64");
    reveal_strlit("aarch64");
    reveal_strlit("arm64");
    reveal_strlit("arm");
    reveal_strlit("arm32");
    let names = seq!["x86"@, "i386"@, "i486"@, "i586"@, "i686"@, "x86_64"@, "amd64"@, "aarch64"@, "arm64"@, "arm"@, "arm32"@];
    assert forall|a: int, b: int| 0 <= a < b < names.len() implies names[a] != names[b] by {
        if names[a].len() == names[b].len() {
            assert(names[a][0] != names[b][0] || names[a][1] != names[b][1] || names[a][2]
                != names[b][2] || names[a][3] != names[b][3]);
        }
    }
}

/// A vendor kind is only given to a text that names it, whatever its ASCII
/// case: Temurin for "temurin", "adoptium" or "eclipse foundation"; Zulu for
/// "zulu" or "azul"; Liberica for "liberica" or "bellsoft"; Oracle for
/// "oracle"; Microsoft for "microsoft"; Corretto for "corretto" or "amazon";
/// OpenJDK for "openjdk". A text that names none of them is unknown, and the
/// Temurin names always win.
pub proof fn law_vendor_names(raw: Seq<char>)
    ensures
        ({
            let n = crate::text::ascii_lowercase(raw);
            let k = vendor_kind_of(raw);
            &&& k == JavaVendorKind::Temurin <==> (contains_seq(n, "temurin"@) || contains_seq(
                n,
                "adoptium"@,
            ) || contains_seq(n, "eclipse foundation"@))
            &&& k == JavaVendorKind::Zulu ==> contains_seq(n, "zulu"@) || contains_seq(n, "azul"@)
            &&& k == JavaVendorKind::Liberica ==> contains_seq(n, "liberica"@) || contains_seq(
                n,
                "bellsoft"@,
            )
            &&& k == JavaVendorKind::Oracle ==> contains_seq(n, "oracle"@)
            &&& k == JavaVendorKind::Microsoft ==> contains_seq(n, "microsoft"@)
            &&& k == JavaVendorKind::Corretto ==> contains_seq(n, "corretto"@) || contains_seq(
                n,
                "amazon"@,
            )
            &&& k == JavaVendorKind::OpenJdk ==> contains_seq(n, "openjdk"@)
            &&& k == JavaVendorKind::Unknown <==> !(contains_seq(n, "temurin"@) || contains_seq(
                n,
                "adoptium"@,
            ) || contains_seq(n, "eclipse foundation"@) || contains_seq(n, "zulu"@)
                || contains_seq(n, "azul"@) || contains_seq(n, "liberica"@) || contains_seq(
                n,
                "bellsoft"@,
            ) || contains_seq(n, "oracle"@) || contains_seq(n, "microsoft"@) || contains_seq(
                n,
                "corretto"@,
            ) || contains_seq(n, "amazon"@) || contains_seq(n, "openjdk"@))
        }),
{
}

} // verus!
