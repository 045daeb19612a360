//! Real-ESRGAN: where it is installed, which build to fetch, and how a failed run is
//! summed up for the status line.

use vstd::prelude::*;
use crate::text::{cat, chars_of, slice, string_of, trim, trim_chars, same_text};
use crate::gallery::{join, join_path};
use crate::museums::decimal_string;
use crate::text::{decimal, spec_utf8_lossy, utf8_lossy};

verus! {

pub const ESRGAN_MACOS_URL: &'static str = "https://github.com/xinntao/Real-ESRGAN/releases/download/v0.2.5.0/realesrgan-ncnn-vulkan-20220424-macos.zip";

pub const ESRGAN_LINUX_URL: &'static str = "https://github.com/xinntao/Real-ESRGAN/releases/download/v0.2.5.0/realesrgan-ncnn-vulkan-20220424-ubuntu.zip";

pub const ESRGAN_MODEL: &'static str = "realesrgan-x4plus";

/// The release archive for an operating system (`std::env::consts::OS`): the Ubuntu
/// build on Linux, the macOS build everywhere else.
pub fn esrgan_download_url(os: &str) -> (r: &'static str)
    ensures
        r@ == (if os@ == "linux"@ {
            ESRGAN_LINUX_URL@
        } else {
            ESRGAN_MACOS_URL@
        }),
{
    if same_text(os, "linux") {
        ESRGAN_LINUX_URL
    } else {
        ESRGAN_MACOS_URL
    }
}

/// The install directory under the user's local data directory.
pub open spec fn esrgan_dir_path(data_dir: Seq<char>) -> Seq<char> {
    join_path(join_path(data_dir, "artfetch"@), "realesrgan"@)
}

pub fn esrgan_dir(data_dir: &str) -> (r: String)
    ensures
        r@ == esrgan_dir_path(data_dir@),
{
    let a = join(data_dir, "artfetch");
    join(a.as_str(), "realesrgan")
}

pub fn esrgan_bin(data_dir: &str) -> (r: String)
    ensures
        r@ == join_path(esrgan_dir_path(data_dir@), "realesrgan-ncnn-vulkan"@),
{
    join(esrgan_dir(data_dir).as_str(), "realesrgan-ncnn-vulkan")
}

pub fn esrgan_models_dir(data_dir: &str) -> (r: String)
    ensures
        r@ == join_path(esrgan_dir_path(data_dir@), "models"@),
{
    join(esrgan_dir(data_dir).as_str(), "models")
}

/// The model file with extension `ext` (`param` or `bin`) in the models directory.
pub fn esrgan_model_file(data_dir: &str, ext: &str) -> (r: String)
    ensures
        r@ == join_path(
            join_path(esrgan_dir_path(data_dir@), "models"@),
            ESRGAN_MODEL@ + "."@ + ext@,
        ),
{
    let name = cat(ESRGAN_MODEL, ".");
    let name = cat(name.as_str(), ext);
    join(esrgan_models_dir(data_dir).as_str(), name.as_str())
}

/// `Path::is_file`: whether a regular file is on disk at `path` right now. What it
/// answers depends on the disk, so nothing is stated of it.
#[verifier::external_body]
fn path_is_file(path: &str) -> bool {
    std::path::Path::new(path).is_file()
}

/// The model is usable when both of its files (`.param` and `.bin`) are files.
pub fn models_present(param_is_file: bool, bin_is_file: bool) -> (r: bool)
    ensures
        r == (param_is_file && bin_is_file),
{
    param_is_file && bin_is_file
}

/// Real-ESRGAN is installed when its binary and both model files are files.
pub fn installed_from(bin_is_file: bool, param_is_file: bool, model_is_file: bool) -> (r: bool)
    ensures
        r == (bin_is_file && param_is_file && model_is_file),
{
    bin_is_file && models_present(param_is_file, model_is_file)
}

/// Whether both model files are on disk: `models_present` of the two answers of
/// the disk for `esrgan_model_file(data_dir, "param")` and `(data_dir, "bin")`.
pub fn esrgan_model_installed(data_dir: &str) -> bool {
    let param = esrgan_model_file(data_dir, "param");
    let bin = esrgan_model_file(data_dir, "bin");
    let param_ok = path_is_file(param.as_str());
    let bin_ok = path_is_file(bin.as_str());
    models_present(param_ok, bin_ok)
}

/// Whether the binary and both model files are on disk: `installed_from` of the
/// answers of the disk for `esrgan_bin` and the two model files.
pub fn esrgan_installed(data_dir: &str) -> bool {
    let bin_ok = path_is_file(esrgan_bin(data_dir).as_str());
    let param_ok = path_is_file(esrgan_model_file(data_dir, "param").as_str());
    let model_ok = path_is_file(esrgan_model_file(data_dir, "bin").as_str());
    installed_from(bin_ok, param_ok, model_ok)
}

// ── Run reports ─────────────────────────────────────────────────────────────

/// The lines of `s`, split at each `'\n'`.
pub open spec fn lines_of(s: Seq<char>) -> Seq<Seq<char>>
    decreases s.len(),
{
    if s.len() == 0 {
        seq![Seq::empty()]
    } else {
        let rest = lines_of(s.drop_first());
        if s[0] == '\n' {
            seq![Seq::empty()] + rest
        } else {
            rest.update(0, seq![s[0]] + rest[0])
        }
    }
}

/// The first line that is not blank, trimmed.
pub open spec fn first_nonblank(lines: Seq<Seq<char>>) -> Option<Seq<char>>
    decreases lines.len(),
{
    if lines.len() == 0 {
        None
    } else if trim(lines[0]).len() > 0 {
        Some(trim(lines[0]))
    } else {
        first_nonblank(lines.drop_first())
    }
}

/// Decimal text of a signed number, with `-` when negative.
pub open spec fn signed_decimal(n: i32) -> Seq<char> {
    if n < 0 {
        "-"@ + decimal((-n) as nat)
    } else {
        decimal(n as nat)
    }
}

/// What happened when Real-ESRGAN ran.
pub struct UpscaleReport {
    pub success: bool,
    pub status: Option<i32>,
    pub signal: Option<i32>,
    pub stdout: String,
    pub stderr: String,
    pub log_path: Option<String>,
}

/// The one-line reason for a failed run: the first non-blank line of its error
/// output, else of its normal output, else how the process ended.
pub open spec fn summary_text(stdout: Seq<char>, stderr: Seq<char>, status: Option<i32>, signal: Option<i32>) -> Seq<char> {
    match first_nonblank(lines_of(stderr)) {
        Some(line) => line,
        None => match first_nonblank(lines_of(stdout)) {
            Some(line) => line,
            None => match status {
                Some(code) => "Real-ESRGAN exited with code "@ + signed_decimal(code),
                None => match signal {
                    Some(sig) => "Real-ESRGAN was killed by signal "@ + signed_decimal(sig),
                    None => "Real-ESRGAN failed to start"@,
                },
            },
        },
    }
}

/// The lines of `s` from a line break on: the line up to the first break, then
/// the lines after it.
proof fn lemma_lines_split(s: Seq<char>, i: int)
    requires
        0 <= i <= s.len(),
        forall|j: int| 0 <= j < i ==> s[j] != '\n',
    ensures
        i < s.len() && s[i] == '\n' ==> lines_of(s) == seq![s.take(i)] + lines_of(s.skip(i + 1)),
        i == s.len() ==> lines_of(s) == seq![s],
    decreases i,
{
    if i > 0 {
        let t = s.drop_first();
        lemma_lines_split(t, i - 1);
        assert(t.take(i - 1) =~= s.take(i).drop_first());
        if i < s.len() {
            assert(t.skip(i) =~= s.skip(i + 1));
        }
        assert(seq![s[0]] + s.take(i).drop_first() =~= s.take(i));
        if i == s.len() {
            assert(t =~= s.drop_first());
            assert(seq![s[0]] + t =~= s);
        }
    } else {
        if s.len() > 0 && s[0] == '\n' {
            assert(s.take(0) =~= Seq::<char>::empty());
            assert(s.skip(1) =~= s.drop_first());
        }
        if s.len() == 0 {
            assert(s =~= Seq::<char>::empty());
        }
    }
}

/// The first non-blank line of `s`, trimmed.
pub fn first_nonblank_line(s: &str) -> (r: Option<String>)
    ensures
        match r {
            Some(line) => first_nonblank(lines_of(s@)) == Some(line@),
            None => first_nonblank(lines_of(s@)) is None,
        },
{
    let v = chars_of(s);
    let n = v.len();
    let mut start: usize = 0;
    assert(v@.skip(0) =~= v@);
    loop
        invariant
            n == v@.len(),
            v@ == s@,
            start <= n,
            first_nonblank(lines_of(v@)) == first_nonblank(lines_of(v@.skip(start as int))),
        decreases n - start,
    {
        let mut i = start;
        while i < n && v[i] != '\n'
            invariant
                start <= i <= n,
                n == v@.len(),
                forall|j: int| start <= j < i ==> v@[j] != '\n',
            decreases n - i,
        {
            i += 1;
        }
        let ghost rest = v@.skip(start as int);
        proof {
            lemma_lines_split(rest, (i - start) as int);
            assert(rest.take((i - start) as int) =~= v@.subrange(start as int, i as int));
        }
        let line = slice(&v, start, i);
        let t = trim_chars(&line);
        if t.len() > 0 {
            return Some(string_of(&t));
        }
        if i == n {
            assert(first_nonblank(lines_of(rest)) is None) by {
                assert(rest =~= line@);
                assert(lines_of(rest) =~= seq![line@]);
                assert(trim(line@).len() == 0);
                assert(lines_of(rest).drop_first() =~= Seq::<Seq<char>>::empty());
                assert(first_nonblank(Seq::<Seq<char>>::empty()) is None);
            }
            return None;
        }
        proof {
            assert(rest.skip((i - start) as int + 1) =~= v@.skip(i + 1));
            assert((seq![line@] + lines_of(v@.skip(i + 1))).drop_first() =~= lines_of(
                v@.skip(i + 1),
            ));
        }
        start = i + 1;
    }
}

/// Decimal text of an `i32`.
pub fn signed_decimal_string(n: i32) -> (r: String)
    ensures
        r@ == signed_decimal(n),
{
    if n < 0 {
        let m: i64 = n as i64;
        let abs: u64 = (-m) as u64;
        cat("-", decimal_string(abs).as_str())
    } else {
        decimal_string(n as u64)
    }
}

impl UpscaleReport {
    /// The one-line reason to show when the run failed.
    pub fn failure_summary(&self) -> (r: String)
        ensures
            r@ == summary_text(self.stdout@, self.stderr@, self.status, self.signal),
    {
        if let Some(line) = first_nonblank_line(self.stderr.as_str()) {
            return line;
        }
        if let Some(line) = first_nonblank_line(self.stdout.as_str()) {
            return line;
        }
        match self.status {
            Some(code) => cat("Real-ESRGAN exited with code ", signed_decimal_string(code).as_str()),
            None => match self.signal {
                Some(sig) => cat("Real-ESRGAN was killed by signal ", signed_decimal_string(sig).as_str()),
                None => String::from_str("Real-ESRGAN failed to start"),
            },
        }
    }
}

// ── Running the upscaler ────────────────────────────────────────────────────

/// The arguments for a 2× upscale of `input` into `output` with the x4plus model,
/// naming the models directory when it exists.
pub open spec fn esrgan_args_spec(input: Seq<char>, output: Seq<char>, models: Option<Seq<char>>) -> Seq<Seq<char>> {
    let base = seq!["-i"@, input, "-o"@, output, "-s"@, "2"@, "-n"@, ESRGAN_MODEL@];
    match models {
        Some(m) => base + seq!["-m"@, m],
        None => base,
    }
}

/// The views of a list of strings.
pub open spec fn views(v: Seq<String>) -> Seq<Seq<char>> {
    v.map_values(|s: String| s@)
}

pub fn esrgan_args(input: &str, output: &str, models: Option<&str>) -> (r: Vec<String>)
    ensures
        views(r@) == esrgan_args_spec(
            input@,
            output@,
            match models {
                Some(m) => Some(m@),
                None => None,
            },
        ),
{
    let mut v: Vec<String> = Vec::new();
    v.push(String::from_str("-i"));
    v.push(String::from_str(input));
    v.push(String::from_str("-o"));
    v.push(String::from_str(output));
    v.push(String::from_str("-s"));
    v.push(String::from_str("2"));
    v.push(String::from_str("-n"));
    v.push(String::from_str(ESRGAN_MODEL));
    if let Some(m) = models {
        v.push(String::from_str("-m"));
        v.push(String::from_str(m));
    }
    assert(views(v@) =~= esrgan_args_spec(
        input@,
        output@,
        match models {
            Some(m) => Some(m@),
            None => None,
        },
    ));
    v
}

/// The report when the model files are missing: nothing ran.
pub fn missing_model_report(models: &str) -> (r: UpscaleReport)
    ensures
        !r.success,
        r.status is None,
        r.signal is None,
        r.stdout@ == Seq::<char>::empty(),
        r.stderr@ == "Real-ESRGAN model files missing in "@ + models@,
        r.log_path is None,
{
    UpscaleReport {
        success: false,
        status: None,
        signal: None,
        stdout: String::new(),
        stderr: cat("Real-ESRGAN model files missing in ", models),
        log_path: None,
    }
}

/// The report when the process could not be started, with the error's message.
pub fn start_failure_report(message: String) -> (r: UpscaleReport)
    ensures
        !r.success,
        r.status is None,
        r.signal is None,
        r.stdout@ == Seq::<char>::empty(),
        r.stderr == message,
        r.log_path is None,
{
    UpscaleReport {
        success: false,
        status: None,
        signal: None,
        stdout: String::new(),
        stderr: message,
        log_path: None,
    }
}

/// The report of a finished run: it succeeded when the process exited successfully
/// and the output file is there; its output is decoded leniently as UTF-8.
pub fn finished_report(
    exit_success: bool,
    code: Option<i32>,
    signal: Option<i32>,
    stdout: &Vec<u8>,
    stderr: &Vec<u8>,
    output_exists: bool,
) -> (r: UpscaleReport)
    ensures
        r.success == (exit_success && output_exists),
        r.status == code,
        r.signal == signal,
        r.stdout@ == spec_utf8_lossy(stdout@),
        r.stderr@ == spec_utf8_lossy(stderr@),
        r.log_path is None,
{
    UpscaleReport {
        success: exit_success && output_exists,
        status: code,
        signal,
        stdout: utf8_lossy(stdout),
        stderr: utf8_lossy(stderr),
        log_path: None,
    }
}

/// Whether the debug variable's value turns the upscale log on.
pub open spec fn debug_value(v: Seq<char>) -> bool {
    v == "1"@ || v == "true"@ || v == "TRUE"@ || v == "yes"@ || v == "YES"@
}

/// Whether the debug log is on, from the value of `ARTFETCH_UPSCALE_DEBUG` if set.
pub fn debug_enabled(value: Option<&str>) -> (r: bool)
    ensures
        r == (value matches Some(v) && debug_value(v@)),
{
    match value {
        Some(v) => same_text(v, "1") || same_text(v, "true") || same_text(v, "TRUE")
            || same_text(v, "yes") || same_text(v, "YES"),
        None => false,
    }
}

/// The debug log is written for a failed run while the debug variable is on.
pub fn log_wanted(value: Option<&str>, success: bool) -> (r: bool)
    ensures
        r == (!success && (value matches Some(v) && debug_value(v@))),
{
    !success && debug_enabled(value)
}

/// `{:?}` of an optional number: `Some(n)` or `None`.
pub open spec fn debug_opt(o: Option<i32>) -> Seq<char> {
    match o {
        Some(n) => "Some("@ + signed_decimal(n) + ")"@,
        None => "None"@,
    }
}

/// `{}` of a boolean.
pub open spec fn bool_text(b: bool) -> Seq<char> {
    if b {
        "true"@
    } else {
        "false"@
    }
}

/// The debug log of a run: the paths involved, how the process ended, and its output.
pub open spec fn debug_log_spec(
    input: Seq<char>,
    output: Seq<char>,
    bin: Seq<char>,
    models: Seq<char>,
    models_exists: bool,
    status: Option<i32>,
    signal: Option<i32>,
    output_exists: bool,
    stdout: Seq<char>,
    stderr: Seq<char>,
) -> Seq<char> {
    "input: "@ + input + "\n"@ + "output: "@ + output + "\n"@ + "binary: "@ + bin + "\n"@
        + "models: "@ + models + "\n"@ + "models_exists: "@ + bool_text(models_exists) + "\n"@
        + "status: "@ + debug_opt(status) + "\n"@ + "signal: "@ + debug_opt(signal) + "\n"@
        + "output_exists: "@ + bool_text(output_exists) + "\n"@ + "\nstdout:\n"@ + stdout + "\n"@
        + "\nstderr:\n"@ + stderr + "\n"@
}

fn debug_opt_string(o: Option<i32>) -> (r: String)
    ensures
        r@ == debug_opt(o),
{
    match o {
        Some(n) => {
            let a = cat("Some(", signed_decimal_string(n).as_str());
            cat(a.as_str(), ")")
        },
        None => String::from_str("None"),
    }
}

fn bool_string(b: bool) -> (r: &'static str)
    ensures
        r@ == bool_text(b),
{
    if b {
        "true"
    } else {
        "false"
    }
}

/// Appends `label`, `value` and a line break to `body`.
fn push_line(body: String, label: &str, value: &str) -> (r: String)
    ensures
        r@ == body@ + label@ + value@ + "\n"@,
{
    let a = cat(body.as_str(), label);
    let b = cat(a.as_str(), value);
    cat(b.as_str(), "\n")
}

/// The text of the debug log for a run.
pub fn debug_log_text(
    input: &str,
    output: &str,
    bin: &str,
    models: &str,
    models_exists: bool,
    report: &UpscaleReport,
    output_exists: bool,
) -> (r: String)
    ensures
        r@ == debug_log_spec(
            input@,
            output@,
            bin@,
            models@,
            models_exists,
            report.status,
            report.signal,
            output_exists,
            report.stdout@,
            report.stderr@,
        ),
{
    let body = push_line(String::new(), "input: ", input);
    let body = push_line(body, "output: ", output);
    let body = push_line(body, "binary: ", bin);
    let body = push_line(body, "models: ", models);
    let body = push_line(body, "models_exists: ", bool_string(models_exists));
    let body = push_line(body, "status: ", debug_opt_string(report.status).as_str());
    let body = push_line(body, "signal: ", debug_opt_string(report.signal).as_str());
    let body = push_line(body, "output_exists: ", bool_string(output_exists));
    let body = push_line(body, "\nstdout:\n", report.stdout.as_str());
    let body = push_line(body, "\nstderr:\n", report.stderr.as_str());
    assert(body@ =~= debug_log_spec(
        input@,
        output@,
        bin@,
        models@,
        models_exists,
        report.status,
        report.signal,
        output_exists,
        report.stdout@,
        report.stderr@,
    ));
    body
}

} // verus!
