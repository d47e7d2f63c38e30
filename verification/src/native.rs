//! What a test program did when it ran as a native executable.

use vstd::prelude::*;
use vstd::utf8::{decode_utf8, valid_utf8};

verus! {

/// What is known of a process that has ended.
#[derive(Debug, Clone, PartialEq, Eq)]
pub struct ProcessExit {
    /// The exit code; none where a signal ended the process.
    pub code: Option<i32>,
    /// The bytes written to stdout.
    pub stdout: Vec<u8>,
    /// The bytes written to stderr.
    pub stderr: Vec<u8>,
}

/// A `ProcessExit`, with its outputs as sequences of bytes.
pub struct ProcessExitView {
    pub code: Option<i32>,
    pub stdout: Seq<u8>,
    pub stderr: Seq<u8>,
}

impl View for ProcessExit {
    type V = ProcessExitView;

    open spec fn view(&self) -> ProcessExitView {
        ProcessExitView { code: self.code, stdout: self.stdout@, stderr: self.stderr@ }
    }
}

impl ProcessExitView {
    /// Whether the process ended with the exit code zero.
    pub open spec fn success(self) -> bool {
        self.code == Some(0i32)
    }
}

impl ProcessExit {
    /// Whether the process ended with the exit code zero.
    pub fn success(&self) -> (b: bool)
        ensures
            b == self@.success(),
    {
        match self.code {
            Some(code) => code == 0,
            None => false,
        }
    }
}

/// Why the outcome of a native run cannot be recorded.
#[derive(Debug, Clone, Copy, PartialEq, Eq)]
pub enum CaptureError {
    /// What was written to stdout is not UTF-8.
    StdoutNotText,
    /// What was written to stderr is not UTF-8.
    StderrNotText,
    /// The process has no exit code: a signal ended it.
    NoExitCode,
}

impl CaptureError {
    /// The error in words.
    pub open spec fn message_text(self) -> Seq<char> {
        match self {
            CaptureError::StdoutNotText => "The native program wrote to stdout what is not UTF-8"@,
            CaptureError::StderrNotText => "The native program wrote to stderr what is not UTF-8"@,
            CaptureError::NoExitCode => "The native program ended without an exit code"@,
        }
    }

    /// The error in words.
    pub fn message(&self) -> (s: String)
        ensures
            s@ == self.message_text(),
    {
        match self {
            CaptureError::StdoutNotText => "The native program wrote to stdout what is not UTF-8".to_owned(),
            CaptureError::StderrNotText => "The native program wrote to stderr what is not UTF-8".to_owned(),
            CaptureError::NoExitCode => "The native program ended without an exit code".to_owned(),
        }
    }
}

/// The outcome of a native run: the expected outcome of the module.
#[derive(Debug, Clone, PartialEq)]
pub struct NativeOutput {
    stdout: String,
    stderr: String,
    result: i64,
}

/// A `NativeOutput`, with its outputs as sequences of characters.
pub struct NativeOutputView {
    pub stdout: Seq<char>,
    pub stderr: Seq<char>,
    pub result: i64,
}

impl View for NativeOutput {
    type V = NativeOutputView;

    closed spec fn view(&self) -> NativeOutputView {
        NativeOutputView { stdout: self.stdout@, stderr: self.stderr@, result: self.result }
    }
}

/// The outcome of a native run that ended as `exit` says: both outputs as
/// text and the exit code, where both outputs are UTF-8 and there is an exit
/// code.
pub open spec fn captured(exit: ProcessExitView) -> Result<NativeOutputView, CaptureError> {
    if !valid_utf8(exit.stdout) {
        Err(CaptureError::StdoutNotText)
    } else if !valid_utf8(exit.stderr) {
        Err(CaptureError::StderrNotText)
    } else if exit.code is None {
        Err(CaptureError::NoExitCode)
    } else {
        Ok(
            NativeOutputView {
                stdout: decode_utf8(exit.stdout),
                stderr: decode_utf8(exit.stderr),
                result: exit.code->0 as i64,
            },
        )
    }
}

/// The view of what `NativeOutput::capture` returns.
pub open spec fn capture_view(r: Result<NativeOutput, CaptureError>) -> Result<
    NativeOutputView,
    CaptureError,
> {
    match r {
        Ok(output) => Ok(output@),
        Err(e) => Err(e),
    }
}

/// `String::from_utf8` turns bytes into a string when they are valid UTF-8,
/// and fails otherwise; the string then holds the characters that the bytes
/// encode.
#[verifier::external_body]
fn text_of(bytes: Vec<u8>) -> (r: Option<String>)
    ensures
        r is Some <==> valid_utf8(bytes@),
        r matches Some(s) ==> s@ == decode_utf8(bytes@),
{
    String::from_utf8(bytes).ok()
}

impl NativeOutput {
    /// The outcome with these outputs and this exit code.
    pub fn new(stdout: String, stderr: String, result: i64) -> (output: NativeOutput)
        ensures
            output@ == (NativeOutputView { stdout: stdout@, stderr: stderr@, result }),
    {
        NativeOutput { stdout, stderr, result }
    }

    /// What the program wrote to stdout.
    pub fn stdout(&self) -> (s: &str)
        ensures
            s@ == self@.stdout,
    {
        self.stdout.as_str()
    }

    /// What the program wrote to stderr.
    pub fn stderr(&self) -> (s: &str)
        ensures
            s@ == self@.stderr,
    {
        self.stderr.as_str()
    }

    /// The exit code of the program.
    pub fn result(&self) -> (code: i64)
        ensures
            code == self@.result,
    {
        self.result
    }

    /// The outputs and the exit code, taken apart.
    pub fn into_parts(self) -> (parts: (String, String, i64))
        ensures
            parts.0@ == self@.stdout,
            parts.1@ == self@.stderr,
            parts.2 == self@.result,
    {
        (self.stdout, self.stderr, self.result)
    }

    /// Records the outcome of a native run. The outputs are read before the
    /// exit code, stdout first.
    pub fn capture(exit: ProcessExit) -> (r: Result<NativeOutput, CaptureError>)
        ensures
            capture_view(r) == captured(exit@),
    {
        let stdout = match text_of(exit.stdout) {
            Some(text) => text,
            None => {
                return Err(CaptureError::StdoutNotText);
            },
        };
        let stderr = match text_of(exit.stderr) {
            Some(text) => text,
            None => {
                return Err(CaptureError::StderrNotText);
            },
        };
        match exit.code {
            Some(code) => Ok(NativeOutput { stdout, stderr, result: code as i64 }),
            None => Err(CaptureError::NoExitCode),
        }
    }
}

} // verus!
