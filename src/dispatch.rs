//! The dispatch engine: what to do with one detected file, how the
//! converter's run is classified, and the outcome that is reported.
use vstd::prelude::*;
use crate::text::{
    ext_of, file_extension, push_char, sanitize_filename, sanitize_stem, sanitized,
    sanitized_file_name, split_ext, split_extension,
};
use crate::usb::{join_path, joined};
use crate::catalog::strings;

verus! {

/// What one watch session works with: the watched folder, the formats the
/// machine reads directly, the format to convert everything else into, and
/// the machine's folder on its USB stick.
#[derive(Clone, Debug)]
pub struct WatchRequest {
    pub directory: String,
    pub accepted_formats: Vec<String>,
    pub preferred_format: String,
    pub usb_relative_path: Option<String>,
}

/// The external converter: where it is installed, whether its embroidery
/// extension is present, and the formats it reads and writes.
#[derive(Clone, Debug)]
pub struct Inkscape {
    pub path: String,
    pub has_inkstitch: bool,
    pub supported_read_formats: Vec<String>,
    pub supported_write_formats: Vec<String>,
}

/// The formats the converter reads, by extension.
pub open spec fn read_format_names() -> Seq<Seq<char>> {
    seq![
        "100"@, "10o"@, "bro"@, "dat"@, "dsb"@, "dst"@, "dsz"@, "emd"@, "exp"@, "exy"@,
        "fxy"@, "gt"@, "inb"@, "jef"@, "jpx"@, "ksm"@, "max"@, "mit"@, "new"@, "pcd"@,
        "pcm"@, "pcq"@, "pcs"@, "pec"@, "pes"@, "phb"@, "phc"@, "sew"@, "shv"@, "stc"@,
        "stx"@, "tap"@, "tbf"@, "txt"@, "u01"@, "vp3"@, "xxx"@, "zxy"@,
    ]
}

/// The formats the converter writes, by extension.
pub open spec fn write_format_names() -> Seq<Seq<char>> {
    seq!["csv"@, "dst"@, "exp"@, "jef"@, "pec"@, "pes"@, "svg"@, "txt"@, "u01"@, "vp3"@]
}

impl Inkscape {
    /// The converter, found on the search path (`on_path`) or else at the
    /// first of the usual install locations that exists (`installed`); none
    /// when neither has it.
    pub fn find_app(on_path: Option<String>, installed: &Vec<String>, has_inkstitch: bool) -> (r:
        Option<Inkscape>)
        ensures
            r is None <==> (on_path is None && installed.len() == 0),
            r matches Some(app) ==> {
                &&& app.path@ == match on_path {
                    Some(p) => p@,
                    None => installed[0]@,
                }
                &&& app.has_inkstitch == has_inkstitch
                &&& app.supported_read_formats@.map_values(|s: String| s@) == read_format_names()
                &&& app.supported_write_formats@.map_values(|s: String| s@) == write_format_names()
            },
    {
        let path = match on_path {
            Some(p) => p,
            None => {
                if installed.len() == 0 {
                    return None;
                }
                installed[0].clone()
            },
        };
        let reads = strings(
            &[
                "100", "10o", "bro", "dat", "dsb", "dst", "dsz", "emd", "exp", "exy", "fxy", "gt",
                "inb", "jef", "jpx", "ksm", "max", "mit", "new", "pcd", "pcm", "pcq", "pcs", "pec",
                "pes", "phb", "phc", "sew", "shv", "stc", "stx", "tap", "tbf", "txt", "u01", "vp3",
                "xxx", "zxy",
            ],
        );
        let writes = strings(&["csv", "dst", "exp", "jef", "pec", "pes", "svg", "txt", "u01", "vp3"]);
        assert(reads@.map_values(|s: String| s@) =~= read_format_names());
        assert(writes@.map_values(|s: String| s@) =~= write_format_names());
        Some(Inkscape {
            path,
            has_inkstitch,
            supported_read_formats: reads,
            supported_write_formats: writes,
        })
    }
}

/// Why a file was left alone.
#[derive(Clone, Copy, Debug, PartialEq, Eq, Structural)]
pub enum SkipReason {
    NoExtension,
    NoDestination,
    UnsupportedFormat,
}

impl SkipReason {
    /// The reason as shown to the user.
    pub fn message(&self) -> (r: &'static str)
        ensures
            r@ == match self {
                SkipReason::NoExtension => "no extension"@,
                SkipReason::NoDestination => "no destination"@,
                SkipReason::UnsupportedFormat => "unsupported format"@,
            },
    {
        match self {
            SkipReason::NoExtension => "no extension",
            SkipReason::NoDestination => "no destination",
            SkipReason::UnsupportedFormat => "unsupported format",
        }
    }
}

/// The kinds of failure reported for one file.
#[derive(Clone, Copy, Debug, PartialEq, Eq, Structural)]
pub enum ErrorKind {
    PluginMissing,
    ConversionFailed,
    CopyFailed,
}

/// What to do with a detected file.
#[derive(Clone, Debug, PartialEq, Eq)]
pub enum Action {
    Skip(SkipReason),
    /// Copy the file as it is, under the sanitized name `file_name`.
    Copy { file_name: String },
    /// Convert the file into `output_name`, in the preferred format.
    Convert { output_name: String },
}

/// How a converter run ended.
#[derive(Clone, Debug, PartialEq, Eq)]
pub enum ConverterResult {
    Success(String),
    PluginMissing(String),
    ConversionFailed(String),
}

/// The outcome reported for one file.
#[derive(Clone, Debug, PartialEq, Eq)]
pub enum ConversionOutcome {
    Copied(String),
    Converted(String),
    Skipped(SkipReason),
    Failed(ErrorKind, String),
}

pub open spec fn holds(v: Seq<String>, s: Seq<char>) -> bool {
    exists|i: int| 0 <= i < v.len() && (#[trigger] v[i])@ == s
}

/// Whether `v` holds a string equal to `s`.
pub fn contains_string(v: &Vec<String>, s: &str) -> (r: bool)
    ensures
        r == holds(v@, s@),
{
    let target = String::from_str(s);
    let mut i: usize = 0;
    while i < v.len()
        invariant
            i <= v.len(),
            target@ == s@,
            forall|k: int| 0 <= k < i ==> v[k]@ != s@,
        decreases v.len() - i,
    {
        if v[i] == target {
            assert(v@[i as int]@ == s@);
            return true;
        }
        i = i + 1;
    }
    false
}

/// The name a converted file gets: the sanitized stem and the preferred
/// extension.
pub open spec fn converted_name(name: Seq<char>, format: Seq<char>) -> Seq<char> {
    match split_ext(name) {
        Some((stem, _)) => sanitized(stem).push('.') + format,
        None => sanitized(name).push('.') + format,
    }
}

/// The action for a file named `name`.
pub open spec fn dispatch_action(name: Seq<char>, req: WatchRequest, conv: Inkscape) -> Action {
    match ext_of(name) {
        None => Action::Skip(SkipReason::NoExtension),
        Some(e) => if holds(req.accepted_formats@, e) {
            Action::Copy { file_name: arbitrary() }
        } else if holds(conv.supported_read_formats@, e) && holds(
            conv.supported_write_formats@,
            req.preferred_format@,
        ) {
            Action::Convert { output_name: arbitrary() }
        } else {
            Action::Skip(SkipReason::UnsupportedFormat)
        },
    }
}

/// `a` is the action for `name`, names included.
pub open spec fn is_dispatch_of(a: Action, name: Seq<char>, req: WatchRequest, conv: Inkscape) -> bool {
    match dispatch_action(name, req, conv) {
        Action::Copy { .. } => a is Copy && a->file_name@ == sanitized_file_name(name),
        Action::Convert { .. } => a is Convert && a->output_name@ == converted_name(
            name,
            req.preferred_format@,
        ),
        other => a == other,
    }
}

/// Decides what happens to a detected file: files in an accepted format
/// are copied, files the converter reads are converted when it writes the
/// preferred format, and the rest are skipped.
pub fn dispatch(name: &str, req: &WatchRequest, conv: &Inkscape) -> (r: Action)
    ensures
        is_dispatch_of(r, name@, *req, *conv),
        ext_of(name@) matches Some(e) && holds(req.accepted_formats@, e) ==> !(r is Convert),
{
    match file_extension(name) {
        None => Action::Skip(SkipReason::NoExtension),
        Some(e) => {
            if contains_string(&req.accepted_formats, e.as_str()) {
                Action::Copy { file_name: sanitize_filename(name) }
            } else if contains_string(&conv.supported_read_formats, e.as_str()) && contains_string(
                &conv.supported_write_formats,
                req.preferred_format.as_str(),
            ) {
                let stem = match split_extension(name) {
                    Some((st, _)) => st,
                    None => String::from_str(name),
                };
                let mut out = sanitize_stem(stem.as_str());
                push_char(&mut out, '.');
                out.append(req.preferred_format.as_str());
                Action::Convert { output_name: out }
            } else {
                Action::Skip(SkipReason::UnsupportedFormat)
            }
        },
    }
}

/// A file that is neither in an accepted format nor readable by the
/// converter is skipped; it never reaches the converter or a copy.
pub proof fn law_unreadable_is_skipped(a: Action, name: Seq<char>, req: WatchRequest, conv: Inkscape)
    requires
        is_dispatch_of(a, name, req, conv),
        forall|e: Seq<char>|
            ext_of(name) == Some(e) ==> !holds(conv.supported_read_formats@, e) && !holds(
                req.accepted_formats@,
                e,
            ),
    ensures
        a is Skip,
{
}

/// A file in an accepted format is never handed to the converter.
pub proof fn law_accepted_never_converted(a: Action, name: Seq<char>, req: WatchRequest, conv: Inkscape)
    requires
        is_dispatch_of(a, name, req, conv),
        ext_of(name) matches Some(e) && holds(req.accepted_formats@, e),
    ensures
        a is Copy,
{
}

/// Whether `p` occurs in `s` as a contiguous run of characters.
pub open spec fn occurs_in(p: Seq<char>, s: Seq<char>) -> bool {
    exists|i: int| 0 <= i && i + p.len() <= s.len() && #[trigger] s.subrange(i, i + p.len()) == p
}

fn chars_of(s: &str) -> (r: Vec<char>)
    ensures
        r@ == s@,
{
    let n = s.unicode_len();
    let mut r: Vec<char> = Vec::new();
    let mut i: usize = 0;
    while i < n
        invariant
            n == s@.len(),
            i <= n,
            r@ == s@.subrange(0, i as int),
        decreases n - i,
    {
        r.push(s.get_char(i));
        assert(r@ =~= s@.subrange(0, i as int + 1));
        i = i + 1;
    }
    assert(s@.subrange(0, n as int) =~= s@);
    r
}

/// Whether `p` occurs at position `at` of `s`.
fn occurs_at(p: &Vec<char>, s: &Vec<char>, at: usize) -> (r: bool)
    requires
        at + p.len() <= s.len(),
    ensures
        r == (s@.subrange(at as int, at + p.len()) == p@),
{
    let mut j: usize = 0;
    while j < p.len()
        invariant
            j <= p.len(),
            at + p.len() <= s.len(),
            forall|k: int| 0 <= k < j ==> s@[at + k] == p@[k],
        decreases p.len() - j,
    {
        if s[at + j] != p[j] {
            assert(s@.subrange(at as int, at + p.len())[j as int] != p@[j as int]);
            return false;
        }
        j = j + 1;
    }
    assert(s@.subrange(at as int, at + p.len()) =~= p@);
    true
}

/// Whether `pattern` occurs in `text`.
pub fn contains_text(text: &str, pattern: &str) -> (r: bool)
    ensures
        r == occurs_in(pattern@, text@),
{
    let s = chars_of(text);
    let p = chars_of(pattern);
    if p.len() > s.len() {
        return false;
    }
    let last = s.len() - p.len();
    let mut at: usize = 0;
    while at <= last
        invariant
            p.len() <= s.len(),
            last == s.len() - p.len(),
            s@ == text@,
            p@ == pattern@,
            at <= last + 1,
            forall|k: int| 0 <= k < at ==> #[trigger] s@.subrange(k, k + p.len()) != p@,
        decreases last + 1 - at,
    {
        if occurs_at(&p, &s, at) {
            return true;
        }
        if at == last {
            return false;
        }
        at = at + 1;
    }
    false
}

/// Phrases in the converter's error output that mean its embroidery
/// extension is missing or could not read the input.
pub open spec fn plugin_missing_phrases() -> Seq<Seq<char>> {
    seq![
        "extension not found"@,
        "unknown extension"@,
        "Could not detect file format"@,
    ]
}

pub open spec fn mentions_missing_plugin(stderr: Seq<char>) -> bool {
    exists|k: int| 0 <= k < 3 && occurs_in(#[trigger] plugin_missing_phrases()[k], stderr)
}

/// Classifies a finished converter run from its exit status and error
/// output: a known phrase means the extension is missing, whatever the
/// status; otherwise a failed status is a conversion failure carrying the
/// error text, and a clean exit is success with `output_path`.
pub fn classify_conversion(exit_success: bool, stderr: &str, output_path: &str) -> (r:
    ConverterResult)
    ensures
        mentions_missing_plugin(stderr@) ==> r is PluginMissing && r->PluginMissing_0@ == stderr@,
        !mentions_missing_plugin(stderr@) && !exit_success ==> r is ConversionFailed
            && r->ConversionFailed_0@ == stderr@,
        !mentions_missing_plugin(stderr@) && exit_success ==> r is Success && r->Success_0@
            == output_path@,
{
    let a = "extension not found";
    let b = "unknown extension";
    let c = "Could not detect file format";
    let found = contains_text(stderr, a) || contains_text(stderr, b) || contains_text(stderr, c);
    proof {
        assert(plugin_missing_phrases()[0] == a@);
        assert(plugin_missing_phrases()[1] == b@);
        assert(plugin_missing_phrases()[2] == c@);
    }
    if found {
        ConverterResult::PluginMissing(String::from_str(stderr))
    } else if !exit_success {
        ConverterResult::ConversionFailed(String::from_str(stderr))
    } else {
        ConverterResult::Success(String::from_str(output_path))
    }
}

/// The outcome of copying a file as it is: `Skipped` without a
/// destination, `Copied` to `dest_dir/file_name`, or `Failed` with the
/// copy's error.
pub fn copy_outcome(dest_dir: &Option<String>, file_name: &str, copy_error: Option<String>) -> (r:
    ConversionOutcome)
    ensures
        match dest_dir {
            None => r == ConversionOutcome::Skipped(SkipReason::NoDestination),
            Some(d) => match copy_error {
                None => r is Copied && r->Copied_0@ == joined(d@, file_name@),
                Some(e) => r == ConversionOutcome::Failed(ErrorKind::CopyFailed, e),
            },
        },
{
    match dest_dir {
        None => ConversionOutcome::Skipped(SkipReason::NoDestination),
        Some(d) => match copy_error {
            None => ConversionOutcome::Copied(join_path(d.as_str(), file_name)),
            Some(e) => ConversionOutcome::Failed(ErrorKind::CopyFailed, e),
        },
    }
}

/// The outcome of a conversion into `output_name`: the converter's failure
/// as it was classified, or `Converted` with the copy's path when there is
/// a destination and the copy went through, with the converted file's own
/// path when there is none, and `Failed` when the copy did not go through.
pub fn conversion_outcome(
    result: ConverterResult,
    output_name: &str,
    dest_dir: &Option<String>,
    copy_error: Option<String>,
) -> (r: ConversionOutcome)
    ensures
        match result {
            ConverterResult::PluginMissing(e) => r == ConversionOutcome::Failed(
                ErrorKind::PluginMissing,
                e,
            ),
            ConverterResult::ConversionFailed(e) => r == ConversionOutcome::Failed(
                ErrorKind::ConversionFailed,
                e,
            ),
            ConverterResult::Success(out) => match dest_dir {
                None => r == ConversionOutcome::Converted(out),
                Some(d) => match copy_error {
                    None => r is Converted && r->Converted_0@ == joined(d@, output_name@),
                    Some(e) => r == ConversionOutcome::Failed(ErrorKind::CopyFailed, e),
                },
            },
        },
{
    match result {
        ConverterResult::PluginMissing(e) => ConversionOutcome::Failed(ErrorKind::PluginMissing, e),
        ConverterResult::ConversionFailed(e) => ConversionOutcome::Failed(
            ErrorKind::ConversionFailed,
            e,
        ),
        ConverterResult::Success(out) => match dest_dir {
            None => ConversionOutcome::Converted(out),
            Some(d) => match copy_error {
                None => ConversionOutcome::Converted(join_path(d.as_str(), output_name)),
                Some(e) => ConversionOutcome::Failed(ErrorKind::CopyFailed, e),
            },
        },
    }
}

} // verus!
