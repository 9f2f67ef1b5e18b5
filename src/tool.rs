//! What the library computes around the supervised command-line tool: how its
//! output is decoded and read, and how its command line is put together.
use vstd::prelude::*;
use vstd::utf8::{decode_utf8, valid_utf8};
use crate::text::{
    has_prefix, lines_of, split_lines, starts_with, trim, trim_end, trim_end_text, trim_text,
};

verus! {

/// The text that lossy UTF-8 decoding makes of `b`.
pub uninterp spec fn utf8_lossy_of(b: Seq<u8>) -> Seq<char>;

/// The text that EUC-KR decoding, with byte-order-mark sniffing, makes of `b`.
pub uninterp spec fn euc_kr_of(b: Seq<u8>) -> Seq<char>;

/// The characters of bytes that are all ASCII.
pub open spec fn ascii_chars(b: Seq<u8>) -> Seq<char> {
    b.map_values(|x: u8| x as char)
}

/// Relies on String::from_utf8_lossy: valid UTF-8 comes back as it is,
/// anything else with replacement characters.
#[verifier::external_body]
fn utf8_lossy(bytes: &[u8]) -> (r: String)
    ensures
        r@ == utf8_lossy_of(bytes@),
        valid_utf8(bytes@) ==> r@ == decode_utf8(bytes@),
{
    String::from_utf8_lossy(bytes).into_owned()
}

/// Relies on encoding_rs::Encoding::decode on EUC_KR: ASCII bytes stand for
/// themselves, and no bytes give no text.
#[verifier::external_body]
fn euc_kr(bytes: &[u8]) -> (r: String)
    ensures
        r@ == euc_kr_of(bytes@),
        (forall|i: int| 0 <= i < bytes@.len() ==> bytes@[i] < 0x80) ==> r@ == ascii_chars(bytes@),
{
    encoding_rs::EUC_KR.decode(bytes).0.into_owned()
}

/// The text of a tool's output, decoded as UTF-8 with replacement characters.
pub fn decode_platform_bytes(bytes: &[u8]) -> (r: String)
    ensures
        r@ == utf8_lossy_of(bytes@),
        valid_utf8(bytes@) ==> r@ == decode_utf8(bytes@),
{
    utf8_lossy(bytes)
}

/// The text of a tool's output on systems whose console writes EUC-KR.
pub fn decode_euc_kr(bytes: &[u8]) -> (r: String)
    ensures
        r@ == euc_kr_of(bytes@),
        (forall|i: int| 0 <= i < bytes@.len() ==> bytes@[i] < 0x80) ==> r@ == ascii_chars(bytes@),
{
    euc_kr(bytes)
}

/// What a finished run of the tool gives: its trimmed standard output when it
/// succeeded, else its trimmed standard error as the failure.
pub fn command_output_result(success: bool, stdout: &[u8], stderr: &[u8]) -> (r: Result<
    String,
    String,
>)
    ensures
        r is Ok <==> success,
        r matches Ok(o) ==> o@ == trim(utf8_lossy_of(stdout@)),
        r matches Err(e) ==> e@ == trim(utf8_lossy_of(stderr@)),
{
    if success {
        let out = decode_platform_bytes(stdout);
        Ok(String::from_str(trim_text(out.as_str())))
    } else {
        let err = decode_platform_bytes(stderr);
        Err(String::from_str(trim_text(err.as_str())))
    }
}

/// The report of a lookup of the tool on the search path: each non-empty
/// stream under its heading, a line feed between the two.
pub open spec fn lookup_report(out: Seq<char>, err: Seq<char>) -> Seq<char> {
    let first = if out.len() > 0 {
        "STDOUT:\n"@ + out
    } else {
        seq![]
    };
    if err.len() > 0 {
        (if first.len() > 0 {
            first.push('\n')
        } else {
            first
        }) + "STDERR:\n"@ + err
    } else {
        first
    }
}

/// The report of running `lookup copilot`, with trailing whitespace trimmed;
/// a fixed sentence when both streams are empty.
pub open spec fn where_log_of(out: Seq<char>, err: Seq<char>, lookup: Seq<char>) -> Seq<char> {
    let body = lookup_report(out, err);
    trim_end(
        if body.len() == 0 {
            "No output from "@ + lookup + " copilot"@
        } else {
            body
        },
    )
}

/// The report of running `lookup copilot` (`which` or `where`), from its
/// decoded standard output and standard error.
pub fn where_log(stdout: &str, stderr: &str, lookup: &str) -> (r: String)
    ensures
        r@ == where_log_of(stdout@, stderr@, lookup@),
{
    proof {
        reveal_strlit("\n");
    }
    let mut log = String::new();
    if stdout.unicode_len() > 0 {
        log.append("STDOUT:\n");
        log.append(stdout);
    }
    if stderr.unicode_len() > 0 {
        if log.as_str().unicode_len() > 0 {
            log.append("\n");
        }
        log.append("STDERR:\n");
        log.append(stderr);
    }
    assert(log@ =~= lookup_report(stdout@, stderr@));
    if log.as_str().unicode_len() == 0 {
        log.append("No output from ");
        log.append(lookup);
        log.append(" copilot");
        assert(log@ =~= "No output from "@ + lookup@ + " copilot"@);
    }
    String::from_str(trim_end_text(log.as_str()))
}

/// `parts` joined with `sep` between each two.
pub open spec fn joined(parts: Seq<Seq<char>>, sep: Seq<char>) -> Seq<char>
    decreases parts.len(),
{
    if parts.len() == 0 {
        seq![]
    } else if parts.len() == 1 {
        parts[0]
    } else {
        joined(parts.drop_last(), sep) + sep + parts.last()
    }
}

/// The search path the tool runs with: the `extra` directories first, then
/// the `current` path, joined with `separator`.
pub open spec fn augmented_path_of(
    current: Seq<char>,
    extra: Seq<Seq<char>>,
    separator: Seq<char>,
) -> Seq<char> {
    if extra.len() == 0 {
        current
    } else if current.len() == 0 {
        joined(extra, separator)
    } else {
        joined(extra, separator) + separator + current
    }
}

/// The search path the tool runs with: the `extra` directories first, then
/// the `current` path, joined with `separator`.
pub fn augmented_path(current: &str, extra: &Vec<String>, separator: &str) -> (r: String)
    ensures
        r@ == augmented_path_of(current@, crate::text::texts(extra@), separator@),
{
    let ghost parts = crate::text::texts(extra@);
    if extra.len() == 0 {
        return String::from_str(current);
    }
    let mut out = extra[0].clone();
    let mut i: usize = 1;
    assert(parts.subrange(0, 1) =~= seq![parts[0]]);
    while i < extra.len()
        invariant
            1 <= i <= extra@.len(),
            parts == crate::text::texts(extra@),
            out@ == joined(parts.subrange(0, i as int), separator@),
        decreases extra@.len() - i,
    {
        out.append(separator);
        out.append(extra[i].as_str());
        assert(parts.subrange(0, i + 1).drop_last() =~= parts.subrange(0, i as int));
        i = i + 1;
    }
    assert(parts.subrange(0, extra@.len() as int) =~= parts);
    if current.unicode_len() == 0 {
        return out;
    }
    out.append(separator);
    out.append(current);
    out
}

/// Whether the tool is installed, its version, and where it was found.
#[derive(Clone, Debug, PartialEq, Eq)]
pub struct CopilotStatus {
    pub installed: bool,
    pub version: Option<String>,
    pub path: Option<String>,
}

/// The tool's status from its version answer, if it gave one, and the path
/// where it was found, if any: installed when either is known.
pub fn copilot_status(version: Option<String>, path: Option<String>) -> (r: CopilotStatus)
    ensures
        r.installed == (version is Some || path is Some),
        r.version == version,
        r.path == path,
{
    let installed = version.is_some() || path.is_some();
    CopilotStatus { installed, version, path }
}

/// What starts the name of each temporary copy of a context file.
pub const CONTEXT_PREFIX: &'static str = ".copilot-context-";

/// Whether a context file is attached: a path that is not blank.
pub fn wants_context(path: Option<&str>) -> (r: bool)
    ensures
        r == (path matches Some(p) && trim(p@).len() > 0),
{
    match path {
        Some(p) => trim_text(p).unicode_len() > 0,
        None => false,
    }
}

/// The name of the temporary copy of the context file `file_name`, made at
/// the time written as `stamp`.
pub fn context_temp_name(stamp: &str, file_name: &str) -> (r: String)
    ensures
        r@ == CONTEXT_PREFIX@ + stamp@ + "-"@ + file_name@,
{
    let mut name = String::from_str(CONTEXT_PREFIX);
    name.append(stamp);
    name.append("-");
    name.append(file_name);
    name
}

/// Whether a file name is that of a temporary copy of a context file.
pub fn is_context_temp_name(name: &str) -> (r: bool)
    ensures
        r == starts_with(name@, CONTEXT_PREFIX@),
{
    has_prefix(name, CONTEXT_PREFIX)
}

/// The prompt with the attached file's path after it, a space between.
pub fn prompt_with_context(prompt: &str, file: &str) -> (r: String)
    ensures
        r@ == prompt@ + " "@ + file@,
{
    let mut full = String::from_str(prompt);
    full.append(" ");
    full.append(file);
    full
}

/// The path that a lookup printed first: its first line, trimmed, when that
/// is not blank.
pub fn first_path_line(output: &str) -> (r: Option<String>)
    ensures
        r matches Some(p) ==> lines_of(output@).len() > 0 && p@ == trim(lines_of(output@)[0])
            && p@.len() > 0,
        r is None ==> lines_of(output@).len() == 0 || trim(lines_of(output@)[0]).len() == 0,
{
    let lines = split_lines(output);
    if lines.len() == 0 {
        return None;
    }
    let first = trim_text(lines[0].as_str());
    if first.unicode_len() == 0 {
        None
    } else {
        Some(String::from_str(first))
    }
}

} // verus!
