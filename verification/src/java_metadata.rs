//! Reading a Java runtime's metadata: the `KEY="value"` lines of its `release`
//! file, or the `key = value` properties that `java -XshowSettings:properties`
//! prints. Values are bounded in size and free of control characters.
use std::path::PathBuf;

use vstd::prelude::*;

use crate::keyed::StringMap;
use crate::text::{
    chars_of, is_blank, is_blank_exec, is_control_char, is_control_exec, split_lines,
    split_lines_exec, split_once, split_once_exec, string_from_chars, trim, trim_of, trimmed,
    TrimSet,
};

verus! {

/// The largest metadata value accepted, in UTF-8 bytes.
pub const MAX_METADATA_VALUE_BYTES: usize = 512;

/// Why a Java runtime could not be detected or described.
#[derive(Debug)]
pub enum JavaRuntimeError {
    HomeMissing { path: PathBuf },
    ExecutableMissing { path: PathBuf },
    ExecutableWithoutParent { path: PathBuf },
    ReadRelease { path: PathBuf, source: std::io::Error },
    ReleaseFileTooLarge { path: PathBuf, size: u64, max_size: u64 },
    MissingMetadata { field: &'static str },
    MetadataValueTooLarge { field: &'static str, max_bytes: usize },
    MetadataValueContainsControl { field: &'static str },
    InvalidVersion { raw: String },
    ProbeStart { executable: PathBuf, source: std::io::Error },
    ProbeFailed { executable: PathBuf, status: String, stderr: String },
}

/// The length of `s` in UTF-8 bytes, as `str::len` counts it.
pub open spec fn byte_len(s: Seq<char>) -> nat {
    vstd::utf8::encode_utf8(s).len()
}

/// Some character of `s` is a control character.
pub open spec fn has_control(s: Seq<char>) -> bool {
    exists|i: int| 0 <= i < s.len() && is_control_char(#[trigger] s[i])
}

/// The check of a metadata value for `field`: too long first, then control characters.
pub open spec fn value_check(field: &'static str, v: Seq<char>) -> Option<JavaRuntimeError> {
    if byte_len(v) > MAX_METADATA_VALUE_BYTES {
        Some(
            JavaRuntimeError::MetadataValueTooLarge {
                field,
                max_bytes: MAX_METADATA_VALUE_BYTES,
            },
        )
    } else if has_control(v) {
        Some(JavaRuntimeError::MetadataValueContainsControl { field })
    } else {
        None
    }
}

/// Accepts `value` for `field` when it is at most `MAX_METADATA_VALUE_BYTES`
/// bytes long and holds no control character.
pub fn validate_metadata_value(key: &'static str, value: String) -> (r: Result<
    String,
    JavaRuntimeError,
>)
    ensures
        match value_check(key, value@) {
            Some(e) => r == Err::<String, _>(e),
            None => r == Ok::<_, JavaRuntimeError>(value),
        },
{
    if value.as_str().as_bytes().len() > MAX_METADATA_VALUE_BYTES {
        return Err(
            JavaRuntimeError::MetadataValueTooLarge {
                field: key,
                max_bytes: MAX_METADATA_VALUE_BYTES,
            },
        );
    }
    let chars = chars_of(value.as_str());
    let n = chars.len();
    let mut i: usize = 0;
    while i < n
        invariant
            i <= n,
            n == chars@.len(),
            chars@ == value@,
            byte_len(value@) <= MAX_METADATA_VALUE_BYTES,
            forall|k: int| 0 <= k < i ==> !is_control_char(#[trigger] chars@[k]),
        decreases n - i,
    {
        if is_control_exec(chars[i]) {
            return Err(JavaRuntimeError::MetadataValueContainsControl { field: key });
        }
        i += 1;
    }
    Ok(value)
}

/// Which of the two line formats a text is in.
#[derive(Debug, Clone, Copy, PartialEq, Eq, Structural)]
pub enum LineSyntax {
    /// `release` files: blank lines and `#` comments are skipped, values lose
    /// surrounding double quotes.
    Release,
    /// Probe output: every line with a `=` counts, values are kept as they are.
    Probe,
}

/// The key and value a line holds, if it holds one: split at the first `=`
/// of the trimmed line, both sides trimmed.
pub open spec fn line_entry(line: Seq<char>, syntax: LineSyntax) -> Option<(Seq<char>, Seq<char>)> {
    let t = trim(line);
    match syntax {
        LineSyntax::Release => if t.len() == 0 || t[0] == '#' {
            None
        } else {
            match split_once(t, '=') {
                None => None,
                Some((k, v)) => Some((trim(k), trim_of(trim(v), TrimSet::DoubleQuote))),
            }
        },
        LineSyntax::Probe => match split_once(t, '=') {
            None => None,
            Some((k, v)) => Some((trim(k), trim(v))),
        },
    }
}

/// The value the last line holding `key` gives it, if any line does.
pub open spec fn final_value(lines: Seq<Seq<char>>, syntax: LineSyntax, key: Seq<char>) -> Option<
    Seq<char>,
>
    decreases lines.len(),
{
    if lines.len() == 0 {
        None
    } else {
        match line_entry(lines.last(), syntax) {
            Some((k, v)) => if k == key {
                Some(v)
            } else {
                final_value(lines.drop_last(), syntax, key)
            },
            None => final_value(lines.drop_last(), syntax, key),
        }
    }
}

/// The views of the values `values` stores under `key`.
pub open spec fn text_lookup(values: StringMap<String>, key: Seq<char>) -> Option<Seq<char>> {
    match values.lookup(key) {
        Some(s) => Some(s@),
        None => None,
    }
}

/// The key-value map of `text`: each key holds the value of the last line that gives it one.
pub open spec fn parses_to(values: StringMap<String>, text: Seq<char>, syntax: LineSyntax) -> bool {
    &&& values.wf()
    &&& forall|k: Seq<char>| #[trigger] text_lookup(values, k) == final_value(split_lines(text), syntax, k)
}

/// Parses lines of `text` into keys and values; a later line wins over an earlier one.
pub fn parse_lines(text: &[char], syntax: LineSyntax) -> (r: StringMap<String>)
    ensures
        parses_to(r, text@, syntax),
{
    let lines = split_lines_exec(text);
    let ghost all = split_lines(text@);
    let mut values: StringMap<String> = StringMap::new();
    let n = lines.len();
    let mut i: usize = 0;
    while i < n
        invariant
            i <= n,
            n == all.len(),
            lines@.len() == n,
            forall|j: int| 0 <= j < n ==> (#[trigger] lines@[j])@ == all[j],
            values.wf(),
            forall|k: Seq<char>|
                #[trigger] text_lookup(values, k) == final_value(all.subrange(0, i as int), syntax, k),
        decreases n - i,
    {
        let line = &lines[i];
        let ghost prefix = all.subrange(0, i + 1);
        proof {
            assert(prefix.drop_last() =~= all.subrange(0, i as int));
            assert(prefix.last() == lines@[i as int]@);
        }
        let t = trimmed(line.as_slice(), TrimSet::WhiteSpace);
        let skip = match syntax {
            LineSyntax::Release => t.len() == 0 || t[0] == '#',
            LineSyntax::Probe => false,
        };
        if !skip {
            if let Some((k, v)) = split_once_exec(t.as_slice(), '=') {
                let key = trimmed(k.as_slice(), TrimSet::WhiteSpace);
                let value = match syntax {
                    LineSyntax::Release => {
                        let inner = trimmed(v.as_slice(), TrimSet::WhiteSpace);
                        trimmed(inner.as_slice(), TrimSet::DoubleQuote)
                    },
                    LineSyntax::Probe => trimmed(v.as_slice(), TrimSet::WhiteSpace),
                };
                let key_s = string_from_chars(key.as_slice());
                let value_s = string_from_chars(value.as_slice());
                let ghost old_values = values;
                values.insert(key_s, value_s);
                proof {
                    assert(line_entry(prefix.last(), syntax) == Some((key@, value@)));
                    assert forall|kk: Seq<char>|
                        #[trigger] text_lookup(values, kk) == final_value(prefix, syntax, kk) by {
                        assert(values.lookup(kk) == if kk == key_s@ {
                            Some(value_s)
                        } else {
                            old_values.lookup(kk)
                        });
                        assert(text_lookup(old_values, kk) == final_value(
                            all.subrange(0, i as int),
                            syntax,
                            kk,
                        ));
                    }
                }
            } else {
                proof {
                    assert(line_entry(prefix.last(), syntax) is None);
                    assert forall|kk: Seq<char>|
                        #[trigger] text_lookup(values, kk) == final_value(prefix, syntax, kk) by {
                        assert(text_lookup(values, kk) == final_value(
                            all.subrange(0, i as int),
                            syntax,
                            kk,
                        ));
                    }
                }
            }
        } else {
            proof {
                assert(line_entry(prefix.last(), syntax) is None);
                assert forall|kk: Seq<char>|
                    #[trigger] text_lookup(values, kk) == final_value(prefix, syntax, kk) by {
                    assert(text_lookup(values, kk) == final_value(
                        all.subrange(0, i as int),
                        syntax,
                        kk,
                    ));
                }
            }
        }
        i += 1;
    }
    proof {
        assert(all.subrange(0, n as int) =~= all);
    }
    values
}

/// The `KEY=value` pairs of a `release` file: blank lines and `#` comments are
/// skipped, keys and values are trimmed, values lose surrounding double quotes,
/// and a later line wins over an earlier one for the same key.
pub fn parse_key_value_lines(content: &str) -> (r: StringMap<String>)
    ensures
        parses_to(r, content@, LineSyntax::Release),
{
    let chars = chars_of(content);
    parse_lines(chars.as_slice(), LineSyntax::Release)
}

/// The value of `key`, unless it is missing or blank.
pub open spec fn present_value(values: StringMap<String>, key: Seq<char>) -> Option<Seq<char>> {
    match text_lookup(values, key) {
        Some(v) => if is_blank(v) {
            None
        } else {
            Some(v)
        },
        None => None,
    }
}

/// A field that must be present: missing or blank is an error, else its value is checked.
pub open spec fn required_field(values: StringMap<String>, key: &'static str) -> Result<
    Seq<char>,
    JavaRuntimeError,
> {
    match present_value(values, key@) {
        None => Err(JavaRuntimeError::MissingMetadata { field: key }),
        Some(v) => match value_check(key, v) {
            Some(e) => Err(e),
            None => Ok(v),
        },
    }
}

/// A field that may be absent (or blank); when present its value is checked.
pub open spec fn optional_field(values: StringMap<String>, key: &'static str) -> Result<
    Option<Seq<char>>,
    JavaRuntimeError,
> {
    match present_value(values, key@) {
        None => Ok(None),
        Some(v) => match value_check(key, v) {
            Some(e) => Err(e),
            None => Ok(Some(v)),
        },
    }
}

/// The value of `key` when it is present and not blank.
fn present(values: &StringMap<String>, key: &str) -> (r: Option<String>)
    requires
        values.wf(),
    ensures
        match r {
            Some(s) => present_value(*values, key@) == Some(s@),
            None => present_value(*values, key@) is None,
        },
{
    match values.get(key) {
        Some(v) => {
            let chars = chars_of(v.as_str());
            if is_blank_exec(chars.as_slice()) {
                None
            } else {
                Some(v.clone())
            }
        },
        None => None,
    }
}

fn required_value(values: &StringMap<String>, key: &'static str) -> (r: Result<
    String,
    JavaRuntimeError,
>)
    requires
        values.wf(),
    ensures
        match required_field(*values, key) {
            Ok(v) => r matches Ok(s) && s@ == v,
            Err(e) => r == Err::<String, _>(e),
        },
{
    match present(values, key) {
        None => Err(JavaRuntimeError::MissingMetadata { field: key }),
        Some(v) => validate_metadata_value(key, v),
    }
}

fn optional_value(values: &StringMap<String>, key: &'static str) -> (r: Result<
    Option<String>,
    JavaRuntimeError,
>)
    requires
        values.wf(),
    ensures
        match optional_field(*values, key) {
            Ok(None) => r matches Ok(None),
            Ok(Some(v)) => r matches Ok(Some(s)) && s@ == v,
            Err(e) => r == Err::<Option<String>, _>(e),
        },
{
    match present(values, key) {
        None => Ok(None),
        Some(v) => match validate_metadata_value(key, v) {
            Ok(s) => Ok(Some(s)),
            Err(e) => Err(e),
        },
    }
}

/// The version, vendor and architecture texts a runtime reports.
#[derive(Debug, Clone, PartialEq, Eq)]
pub struct JavaMetadata {
    pub version: String,
    pub vendor: String,
    pub architecture: String,
}

/// The first of `first` and `second` that is present, or `default`; an error
/// in a field read stops the reading.
pub open spec fn first_present(
    first: Result<Option<Seq<char>>, JavaRuntimeError>,
    second: Result<Option<Seq<char>>, JavaRuntimeError>,
    default: Seq<char>,
) -> Result<Seq<char>, JavaRuntimeError> {
    match first {
        Err(e) => Err(e),
        Ok(Some(v)) => Ok(v),
        Ok(None) => match second {
            Err(e) => Err(e),
            Ok(Some(v)) => Ok(v),
            Ok(None) => Ok(default),
        },
    }
}

/// What a `release` file says: `JAVA_VERSION` (required), the vendor from
/// `IMPLEMENTOR`, else `JAVA_VENDOR`, else "Unknown", and the architecture from
/// `OS_ARCH`, else `SUN_ARCH_ABI`, else "unknown". Fields are read in that order
/// and the first error found is the answer.
pub open spec fn release_metadata(values: StringMap<String>) -> Result<
    (Seq<char>, Seq<char>, Seq<char>),
    JavaRuntimeError,
> {
    match required_field(values, "JAVA_VERSION") {
        Err(e) => Err(e),
        Ok(version) => match first_present(
            optional_field(values, "IMPLEMENTOR"),
            optional_field(values, "JAVA_VENDOR"),
            "Unknown"@,
        ) {
            Err(e) => Err(e),
            Ok(vendor) => match first_present(
                optional_field(values, "OS_ARCH"),
                optional_field(values, "SUN_ARCH_ABI"),
                "unknown"@,
            ) {
                Err(e) => Err(e),
                Ok(architecture) => Ok((version, vendor, architecture)),
            },
        },
    }
}

/// What probe output says: `java.version` (required), `java.vendor` else
/// "Unknown", `os.arch` else "unknown", read in that order.
pub open spec fn probe_metadata(values: StringMap<String>) -> Result<
    (Seq<char>, Seq<char>, Seq<char>),
    JavaRuntimeError,
> {
    match required_field(values, "java.version") {
        Err(e) => Err(e),
        Ok(version) => match optional_field(values, "java.vendor") {
            Err(e) => Err(e),
            Ok(vendor) => match optional_field(values, "os.arch") {
                Err(e) => Err(e),
                Ok(architecture) => Ok(
                    (
                        version,
                        match vendor {
                            Some(v) => v,
                            None => "Unknown"@,
                        },
                        match architecture {
                            Some(a) => a,
                            None => "unknown"@,
                        },
                    ),
                ),
            },
        },
    }
}

/// `m` holds exactly the three texts of `r`, or the error of `r`.
pub open spec fn metadata_result_is(
    m: Result<JavaMetadata, JavaRuntimeError>,
    r: Result<(Seq<char>, Seq<char>, Seq<char>), JavaRuntimeError>,
) -> bool {
    match r {
        Ok((version, vendor, architecture)) => m matches Ok(md) && md.version@ == version
            && md.vendor@ == vendor && md.architecture@ == architecture,
        Err(e) => m == Err::<JavaMetadata, _>(e),
    }
}

/// The value, or `default` when there is none.
fn or_default(v: Option<String>, default: &str) -> (r: String)
    ensures
        match v {
            Some(s) => r == s,
            None => r@ == default@,
        },
{
    match v {
        Some(s) => s,
        None => default.to_owned(),
    }
}

impl JavaMetadata {
    /// Reads a `release` file's text (see `release_metadata`).
    pub fn from_release_file(content: &str) -> (r: Result<Self, JavaRuntimeError>)
        ensures
            release_file_gives(content@, r),
    {
        let values = parse_key_value_lines(content);
        let version = required_value(&values, "JAVA_VERSION")?;
        let vendor = match optional_value(&values, "IMPLEMENTOR")? {
            Some(vendor) => vendor,
            None => or_default(optional_value(&values, "JAVA_VENDOR")?, "Unknown"),
        };
        let architecture = match optional_value(&values, "OS_ARCH")? {
            Some(architecture) => architecture,
            None => or_default(optional_value(&values, "SUN_ARCH_ABI")?, "unknown"),
        };
        Ok(JavaMetadata { version, vendor, architecture })
    }

    /// Reads probe output: the lines of `stdout`, a line break, then `stderr`
    /// (see `probe_metadata`).
    pub fn from_probe_output(stdout: &str, stderr: &str) -> (r: Result<Self, JavaRuntimeError>)
        ensures
            exists|values: StringMap<String>|
                parses_to(values, stdout@ + seq!['\n'] + stderr@, LineSyntax::Probe)
                    && metadata_result_is(r, probe_metadata(values)),
    {
        let mut combined = chars_of(stdout);
        combined.push('\n');
        let mut rest = chars_of(stderr);
        combined.append(&mut rest);
        assert(combined@ =~= stdout@ + seq!['\n'] + stderr@);
        let values = parse_lines(combined.as_slice(), LineSyntax::Probe);
        let version = required_value(&values, "java.version")?;
        let vendor = or_default(optional_value(&values, "java.vendor")?, "Unknown");
        let architecture = or_default(optional_value(&values, "os.arch")?, "unknown");
        Ok(JavaMetadata { version, vendor, architecture })
    }
}

/// The two outputs of a probe run.
#[derive(Debug, Clone, PartialEq, Eq)]
pub struct JavaProbeOutput {
    pub stdout: String,
    pub stderr: String,
}

/// Runs a Java executable so that it prints its properties.
pub trait JavaProbe {
    /// Whether `r` is an answer this probe may give when run on
    /// `java_executable`. A probe that keeps the contract below says which;
    /// the default allows every answer.
    open spec fn may_answer(
        &self,
        java_executable: PathBuf,
        r: Result<JavaProbeOutput, JavaRuntimeError>,
    ) -> bool {
        true
    }

    /// What `java_executable` printed, or why it could not be run.
    fn run(&self, java_executable: &PathBuf) -> (r: Result<JavaProbeOutput, JavaRuntimeError>)
        ensures
            self.may_answer(*java_executable, r),
    ;
}

/// `r` is what probe output `out` reads to (see `from_probe_output`).
pub open spec fn probe_output_gives(
    out: JavaProbeOutput,
    r: Result<JavaMetadata, JavaRuntimeError>,
) -> bool {
    exists|values: StringMap<String>|
        parses_to(values, out.stdout@ + seq!['\n'] + out.stderr@, LineSyntax::Probe)
            && metadata_result_is(r, probe_metadata(values))
}

/// `r` answers a probe run that ended in `run`: the run's error, or what its
/// output reads to.
pub open spec fn probe_run_gives(
    run: Result<JavaProbeOutput, JavaRuntimeError>,
    r: Result<JavaMetadata, JavaRuntimeError>,
) -> bool {
    match run {
        Err(e) => r == Err::<JavaMetadata, _>(e),
        Ok(out) => probe_output_gives(out, r),
    }
}

/// `r` is what a `release` file's text `content` reads to (see `release_metadata`).
pub open spec fn release_file_gives(
    content: Seq<char>,
    r: Result<JavaMetadata, JavaRuntimeError>,
) -> bool {
    exists|values: StringMap<String>|
        parses_to(values, content, LineSyntax::Release) && metadata_result_is(
            r,
            release_metadata(values),
        )
}

/// The metadata in `read`, if it holds any.
pub open spec fn read_metadata(read: Result<JavaMetadata, JavaRuntimeError>) -> Option<JavaMetadata> {
    match read {
        Ok(m) => Some(m),
        Err(_) => None,
    }
}

/// `r` is what the `release` file text `release` offers: nothing without a
/// file or when the file does not read, else what it reads to.
pub open spec fn release_offers(release: Option<Seq<char>>, r: Option<JavaMetadata>) -> bool {
    match release {
        None => r is None,
        Some(content) => exists|read: Result<JavaMetadata, JavaRuntimeError>|
            release_file_gives(content, read) && r == read_metadata(read),
    }
}

impl JavaMetadata {
    /// Reads the outcome of a probe run: its error is the answer, else its
    /// output is read as `from_probe_output` reads it.
    pub fn from_probe_run(run: Result<JavaProbeOutput, JavaRuntimeError>) -> (r: Result<
        Self,
        JavaRuntimeError,
    >)
        ensures
            probe_run_gives(run, r),
    {
        match run {
            Err(e) => Err(e),
            Ok(output) => Self::from_probe_output(output.stdout.as_str(), output.stderr.as_str()),
        }
    }

    /// Runs `probe` once, on `java_executable`, and reads what it printed. What
    /// the probe gives back is its own; whatever it was, the answer is what
    /// `from_probe_run` makes of it.
    pub fn from_probe_with(java_executable: &PathBuf, probe: &impl JavaProbe) -> (r: Result<
        Self,
        JavaRuntimeError,
    >)
        ensures
            exists|run: Result<JavaProbeOutput, JavaRuntimeError>|
                probe.may_answer(*java_executable, run) && #[trigger] probe_run_gives(run, r),
    {
        let run = probe.run(java_executable);
        let r = Self::from_probe_run(run);
        assert(probe.may_answer(*java_executable, run) && probe_run_gives(run, r));
        r
    }

    /// The metadata of a `release` file's text, when there is a file and it
    /// reads; `None` sends the caller to the probe.
    pub fn from_release_if_readable(release: Option<&str>) -> (r: Option<Self>)
        ensures
            release_offers(
                match release {
                    Some(c) => Some(c@),
                    None => None,
                },
                r,
            ),
    {
        match release {
            None => None,
            Some(content) => {
                let read = Self::from_release_file(content);
                let r = match read {
                    Ok(m) => Some(m),
                    Err(_) => None,
                };
                assert(release_file_gives(content@, read) && r == read_metadata(read));
                r
            },
        }
    }
}

/// A metadata value fit to show: not blank, within the size limit, free of
/// control characters.
pub open spec fn is_safe_value(s: Seq<char>) -> bool {
    !is_blank(s) && byte_len(s) <= MAX_METADATA_VALUE_BYTES && !has_control(s)
}

/// A short ASCII default is a safe value.
proof fn lemma_default_safe(s: Seq<char>)
    requires
        0 < s.len() <= MAX_METADATA_VALUE_BYTES,
        forall|i: int| 0 <= i < s.len() ==> 'A' <= #[trigger] s[i] <= 'z',
    ensures
        is_safe_value(s),
{
    assert(vstd::utf8::is_ascii_chars(s));
    vstd::utf8::is_ascii_chars_encode_utf8(s);
    assert(!crate::text::is_white_space(s[0]));
}

proof fn lemma_defaults_safe()
    ensures
        is_safe_value("Unknown"@),
        is_safe_value("unknown"@),
{
    reveal_strlit("Unknown");
    reveal_strlit("unknown");
    lemma_default_safe("Unknown"@);
    lemma_default_safe("unknown"@);
}

/// Whatever a `release` file or probe output is read to, each of its three
/// values is safe to show: not blank, at most `MAX_METADATA_VALUE_BYTES` bytes,
/// with no control character.
pub proof fn law_read_metadata_is_safe(values: StringMap<String>)
    ensures
        release_metadata(values) matches Ok((v, d, a)) ==> is_safe_value(v) && is_safe_value(d)
            && is_safe_value(a),
        probe_metadata(values) matches Ok((v, d, a)) ==> is_safe_value(v) && is_safe_value(d)
            && is_safe_value(a),
{
    lemma_defaults_safe();
}

/// Two readings give the same three texts, or the same error.
pub open spec fn same_reading(
    a: Result<JavaMetadata, JavaRuntimeError>,
    b: Result<JavaMetadata, JavaRuntimeError>,
) -> bool {
    match (a, b) {
        (Ok(x), Ok(y)) => x.version@ == y.version@ && x.vendor@ == y.vendor@ && x.architecture@
            == y.architecture@,
        (Err(e), Err(f)) => e == f,
        _ => false,
    }
}

/// Maps that look every key up alike read every field alike.
proof fn lemma_fields_agree(a: StringMap<String>, b: StringMap<String>)
    requires
        forall|k: Seq<char>| #[trigger] text_lookup(a, k) == text_lookup(b, k),
    ensures
        forall|key: &'static str| #[trigger] required_field(a, key) == required_field(b, key),
        forall|key: &'static str| #[trigger] optional_field(a, key) == optional_field(b, key),
{
    assert forall|key: &'static str| #[trigger] required_field(a, key) == required_field(b, key) by {
        assert(text_lookup(a, key@) == text_lookup(b, key@));
    }
    assert forall|key: &'static str| #[trigger] optional_field(a, key) == optional_field(b, key) by {
        assert(text_lookup(a, key@) == text_lookup(b, key@));
    }
}

/// Two maps parsed from one text look every key up alike.
proof fn lemma_parses_agree(a: StringMap<String>, b: StringMap<String>, text: Seq<char>, syntax: LineSyntax)
    requires
        parses_to(a, text, syntax),
        parses_to(b, text, syntax),
    ensures
        forall|k: Seq<char>| #[trigger] text_lookup(a, k) == text_lookup(b, k),
{
    assert forall|k: Seq<char>| #[trigger] text_lookup(a, k) == text_lookup(b, k) by {
        assert(text_lookup(a, k) == final_value(split_lines(text), syntax, k));
        assert(text_lookup(b, k) == final_value(split_lines(text), syntax, k));
    }
}

/// Reading one `release` file text twice gives the same answer.
pub proof fn law_release_reading_is_deterministic(
    content: Seq<char>,
    a: Result<JavaMetadata, JavaRuntimeError>,
    b: Result<JavaMetadata, JavaRuntimeError>,
)
    requires
        release_file_gives(content, a),
        release_file_gives(content, b),
    ensures
        same_reading(a, b),
{
    let va = choose|v: StringMap<String>|
        parses_to(v, content, LineSyntax::Release) && metadata_result_is(a, release_metadata(v));
    let vb = choose|v: StringMap<String>|
        parses_to(v, content, LineSyntax::Release) && metadata_result_is(b, release_metadata(v));
    lemma_parses_agree(va, vb, content, LineSyntax::Release);
    lemma_fields_agree(va, vb);
    assert(release_metadata(va) == release_metadata(vb));
}

/// Reading one probe output twice gives the same answer.
pub proof fn law_probe_reading_is_deterministic(
    out: JavaProbeOutput,
    a: Result<JavaMetadata, JavaRuntimeError>,
    b: Result<JavaMetadata, JavaRuntimeError>,
)
    requires
        probe_output_gives(out, a),
        probe_output_gives(out, b),
    ensures
        same_reading(a, b),
{
    let text = out.stdout@ + seq!['\n'] + out.stderr@;
    let va = choose|v: StringMap<String>|
        parses_to(v, text, LineSyntax::Probe) && metadata_result_is(a, probe_metadata(v));
    let vb = choose|v: StringMap<String>|
        parses_to(v, text, LineSyntax::Probe) && metadata_result_is(b, probe_metadata(v));
    lemma_parses_agree(va, vb, text, LineSyntax::Probe);
    lemma_fields_agree(va, vb);
    assert(probe_metadata(va) == probe_metadata(vb));
}

/// Every field read from a `release` file or from probe output is safe text:
/// not blank, within `MAX_METADATA_VALUE_BYTES` bytes, with no control character.
pub proof fn law_read_fields_are_safe(
    content: Seq<char>,
    out: JavaProbeOutput,
    a: Result<JavaMetadata, JavaRuntimeError>,
    b: Result<JavaMetadata, JavaRuntimeError>,
)
    requires
        release_file_gives(content, a),
        probe_output_gives(out, b),
    ensures
        a matches Ok(m) ==> is_safe_value(m.version@) && is_safe_value(m.vendor@)
            && is_safe_value(m.architecture@),
        b matches Ok(m) ==> is_safe_value(m.version@) && is_safe_value(m.vendor@)
            && is_safe_value(m.architecture@),
{
    let va = choose|v: StringMap<String>|
        parses_to(v, content, LineSyntax::Release) && metadata_result_is(a, release_metadata(v));
    let vb = choose|v: StringMap<String>|
        parses_to(v, out.stdout@ + seq!['\n'] + out.stderr@, LineSyntax::Probe)
            && metadata_result_is(b, probe_metadata(v));
    law_read_metadata_is_safe(va);
    law_read_metadata_is_safe(vb);
}

} // verus!
