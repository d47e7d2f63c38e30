//! The steps that turn one test program into its fixtures.
//!
//! A `Job` decides, the caller acts. The job hands out one `Action` at a
//! time: run a tool, set the permissions of a file, create a directory,
//! write a file. The caller performs it and answers with an `Event`, and the job
//! hands out the next action, or stops the run at the first failure.
//!
//! The program is first compiled and run natively. What it printed and how
//! it ended is what the module is expected to do. Then, for each version of
//! WASI in the order given, the assertion file is written into the version's
//! directory, and the program is compiled to a module beside it, stripped
//! and optimized.

use crate::directives::{
    options_of_source, source_options, DirectiveError, DirectiveErrorView, DirectiveWarning,
    DirectiveWarningView,
};
use crate::native::{captured, CaptureError, NativeOutput, NativeOutputView, ProcessExit, ProcessExitView};
use crate::options::{lemma_push_deep_view, WasiOptions, WasiOptionsView};
use crate::text::{chars_of, ends_with, join_text};
use crate::version::{WasiVersion, WasiVersionView};
use crate::wast::{wast_text, WasiTest, WasiTestView};
use vstd::prelude::*;

verus! {

/// A file or a directory that a job works on. The caller knows where the
/// source file and the scratch directory are; the directory of a version
/// lies beside the directory of the source file.
#[derive(Debug, Clone, PartialEq, Eq)]
pub enum Place {
    /// The source file of the test program.
    Source,
    /// The file of this name in the scratch directory.
    Scratch(String),
    /// The output directory of this name.
    OutputDir(String),
    /// In the output directory of the first name, the file of the second.
    OutputFile(String, String),
}

/// A `Place`, as sequences of characters.
pub enum PlaceView {
    Source,
    Scratch(Seq<char>),
    OutputDir(Seq<char>),
    OutputFile(Seq<char>, Seq<char>),
}

impl View for Place {
    type V = PlaceView;

    open spec fn view(&self) -> PlaceView {
        match self {
            Place::Source => PlaceView::Source,
            Place::Scratch(file) => PlaceView::Scratch(file@),
            Place::OutputDir(dir) => PlaceView::OutputDir(dir@),
            Place::OutputFile(dir, file) => PlaceView::OutputFile(dir@, file@),
        }
    }
}

/// One word of a command line.
#[derive(Debug, Clone, PartialEq, Eq)]
pub enum Arg {
    /// The word as it stands.
    Text(String),
    /// The path of a place.
    Path(Place),
}

/// An `Arg`, as sequences of characters.
pub enum ArgView {
    Text(Seq<char>),
    Path(PlaceView),
}

impl View for Arg {
    type V = ArgView;

    open spec fn view(&self) -> ArgView {
        match self {
            Arg::Text(text) => ArgView::Text(text@),
            Arg::Path(place) => ArgView::Path(place@),
        }
    }
}

impl DeepView for Arg {
    type V = ArgView;

    open spec fn deep_view(&self) -> ArgView {
        self@
    }
}

/// A tool to run to its end, with its output captured.
#[derive(Debug, Clone, PartialEq, Eq)]
pub struct Command {
    /// The program: the name of a tool, or the path of an executable.
    pub program: Arg,
    /// The arguments, in order.
    pub args: Vec<Arg>,
    /// Whether the program runs in the root directory of the fixtures
    /// rather than in the caller's working directory.
    pub in_fixture_root: bool,
}

/// A `Command`, as sequences of characters.
pub struct CommandView {
    pub program: ArgView,
    pub args: Seq<ArgView>,
    pub in_fixture_root: bool,
}

impl View for Command {
    type V = CommandView;

    open spec fn view(&self) -> CommandView {
        CommandView {
            program: self.program@,
            args: self.args.deep_view(),
            in_fixture_root: self.in_fixture_root,
        }
    }
}

/// Where a job stands: the action that it has handed out and awaits the
/// answer to. The number is the index of the version being built.
#[derive(Debug, Clone, Copy, PartialEq, Eq)]
pub enum Phase {
    /// The native compiler runs.
    CompileNative,
    /// The native executable gets its permissions.
    MarkExecutable,
    /// The native executable runs.
    RunNative,
    /// The output directory of the version is created.
    CreateDir(usize),
    /// The assertion file of the version is written.
    WriteAssertions(usize),
    /// The source with the feature header is written to the scratch directory.
    WriteSource(usize),
    /// The compiler for the version runs.
    CompileWasm(usize),
    /// The module of the version is stripped.
    StripWasm(usize),
    /// The module of the version is optimized.
    OptimizeWasm(usize),
    /// Every fixture is written.
    Finished,
    /// The run has been stopped.
    Failed,
}

impl Phase {
    /// Whether a tool runs in this phase, so that a process's end answers it.
    pub open spec fn runs_tool(self) -> bool {
        match self {
            Phase::CompileNative
            | Phase::RunNative
            | Phase::CompileWasm(_)
            | Phase::StripWasm(_)
            | Phase::OptimizeWasm(_) => true,
            _ => false,
        }
    }

    /// Whether the job has come to its end, one way or the other.
    pub open spec fn ended(self) -> bool {
        self is Finished || self is Failed
    }

    /// The version that is built in this phase.
    pub open spec fn version(self) -> Option<usize> {
        match self {
            Phase::CreateDir(k)
            | Phase::WriteAssertions(k)
            | Phase::WriteSource(k)
            | Phase::CompileWasm(k)
            | Phase::StripWasm(k)
            | Phase::OptimizeWasm(k) => Some(k),
            _ => None,
        }
    }

    /// The phase of the first step for the version `k` of `versions`, or
    /// the end where there is no such version.
    pub open spec fn of_version(k: int, versions: nat) -> Phase {
        if k < versions {
            Phase::CreateDir(k as usize)
        } else {
            Phase::Finished
        }
    }

    /// The phase that follows this one when its action succeeded, with
    /// `versions` versions to build.
    pub open spec fn next(self, versions: nat) -> Phase {
        match self {
            Phase::CompileNative => Phase::MarkExecutable,
            Phase::MarkExecutable => Phase::RunNative,
            Phase::RunNative => Phase::of_version(0, versions),
            Phase::CreateDir(k) => Phase::WriteAssertions(k),
            Phase::WriteAssertions(k) => Phase::WriteSource(k),
            Phase::WriteSource(k) => Phase::CompileWasm(k),
            Phase::CompileWasm(k) => Phase::StripWasm(k),
            Phase::StripWasm(k) => Phase::OptimizeWasm(k),
            Phase::OptimizeWasm(k) => Phase::of_version(k + 1, versions),
            Phase::Finished => Phase::Finished,
            Phase::Failed => Phase::Failed,
        }
    }

    /// The words that head the report of a tool that failed in this phase.
    pub open spec fn label(self) -> Seq<char> {
        match self {
            Phase::CompileNative => "COMPILATION FAILED"@,
            Phase::RunNative => "NATIVE PROGRAM FAILED"@,
            Phase::CompileWasm(_) => "WASM COMPILATION"@,
            Phase::StripWasm(_) => "STRIPPING WASM"@,
            Phase::OptimizeWasm(_) => "OPTIMIZING WASM"@,
            _ => "FAILED"@,
        }
    }

    /// The version that is built in this phase.
    pub fn version_index(&self) -> (r: Option<usize>)
        ensures
            r == self.version(),
    {
        match self {
            Phase::CreateDir(k)
            | Phase::WriteAssertions(k)
            | Phase::WriteSource(k)
            | Phase::CompileWasm(k)
            | Phase::StripWasm(k)
            | Phase::OptimizeWasm(k) => Some(*k),
            _ => None,
        }
    }

    /// The words that head the report of a tool that failed in this phase.
    pub fn label_text(&self) -> (s: &'static str)
        ensures
            s@ == self.label(),
    {
        match self {
            Phase::CompileNative => "COMPILATION FAILED",
            Phase::RunNative => "NATIVE PROGRAM FAILED",
            Phase::CompileWasm(_) => "WASM COMPILATION",
            Phase::StripWasm(_) => "STRIPPING WASM",
            Phase::OptimizeWasm(_) => "OPTIMIZING WASM",
            _ => "FAILED",
        }
    }

    /// Whether a tool runs in this phase.
    pub fn is_tool_run(&self) -> (b: bool)
        ensures
            b == self.runs_tool(),
    {
        match self {
            Phase::CompileNative
            | Phase::RunNative
            | Phase::CompileWasm(_)
            | Phase::StripWasm(_)
            | Phase::OptimizeWasm(_) => true,
            _ => false,
        }
    }

    /// Whether the job has come to its end.
    pub fn has_ended(&self) -> (b: bool)
        ensures
            b == self.ended(),
    {
        match self {
            Phase::Finished | Phase::Failed => true,
            _ => false,
        }
    }
}

/// Why a run was stopped.
#[derive(Debug, Clone, PartialEq, Eq)]
pub enum Failure {
    /// A line of the header comment is corrupt.
    CorruptDirective(DirectiveError),
    /// The tool of this phase did not end with the exit code zero. What it
    /// wrote and how it ended comes along, for the report to the operator.
    ToolFailed(Phase, ProcessExit),
    /// The outcome of the native run cannot be recorded.
    Capture(CaptureError),
    /// The answer does not fit the action that was handed out.
    UnexpectedEvent,
}

/// A `Failure`, as sequences of characters.
pub enum FailureView {
    CorruptDirective(DirectiveErrorView),
    ToolFailed(Phase, ProcessExitView),
    Capture(CaptureError),
    UnexpectedEvent,
}

impl View for Failure {
    type V = FailureView;

    open spec fn view(&self) -> FailureView {
        match self {
            Failure::CorruptDirective(e) => FailureView::CorruptDirective(e@),
            Failure::ToolFailed(phase, exit) => FailureView::ToolFailed(*phase, exit@),
            Failure::Capture(e) => FailureView::Capture(*e),
            Failure::UnexpectedEvent => FailureView::UnexpectedEvent,
        }
    }
}

/// The permission bits of the native executable: all for its owner, reading
/// and writing for the others.
pub const EXECUTABLE_MODE: u32 = 0o766;

/// What the caller is to do next.
#[derive(Debug, Clone, PartialEq, Eq)]
pub enum Action {
    /// Run the command to its end and answer with how it ended.
    Run(Command),
    /// Give the file these permission bits, where the platform has such.
    SetMode(Place, u32),
    /// Create the directory unless it is there.
    CreateDir(Place),
    /// Write the text to the file, in place of what the file held.
    Write(Place, String),
    /// Nothing: every fixture is written.
    Finish,
    /// Stop the whole run.
    Abort(Failure),
}

/// An `Action`, as sequences of characters.
pub enum ActionView {
    Run(CommandView),
    SetMode(PlaceView, u32),
    CreateDir(PlaceView),
    Write(PlaceView, Seq<char>),
    Finish,
    Abort(FailureView),
}

impl View for Action {
    type V = ActionView;

    open spec fn view(&self) -> ActionView {
        match self {
            Action::Run(command) => ActionView::Run(command@),
            Action::SetMode(place, mode) => ActionView::SetMode(place@, *mode),
            Action::CreateDir(place) => ActionView::CreateDir(place@),
            Action::Write(place, text) => ActionView::Write(place@, text@),
            Action::Finish => ActionView::Finish,
            Action::Abort(failure) => ActionView::Abort(failure@),
        }
    }
}

/// The answer to an action.
#[derive(Debug, Clone, PartialEq, Eq)]
pub enum Event {
    /// The command has run to its end.
    Exit(ProcessExit),
    /// The file or the directory is as the action asked.
    Done,
}

/// An `Event`, with outputs as sequences of bytes.
pub enum EventView {
    Exit(ProcessExitView),
    Done,
}

impl View for Event {
    type V = EventView;

    open spec fn view(&self) -> EventView {
        match self {
            Event::Exit(exit) => EventView::Exit(exit@),
            Event::Done => EventView::Done,
        }
    }
}

/// The work on one test program.
#[derive(Debug)]
pub struct Job {
    name: String,
    source: String,
    versions: Vec<WasiVersion>,
    test: WasiTest,
    warnings: Vec<DirectiveWarning>,
    phase: Phase,
}

/// A `Job`, as sequences of characters.
pub struct JobView {
    /// The base name of the program: that of every file made for it.
    pub name: Seq<char>,
    /// The text of the source file.
    pub source: Seq<char>,
    /// The versions to build for, in order.
    pub versions: Seq<WasiVersionView>,
    /// What the assertion files state: the module's name and the options
    /// of the header comment, and, once the native executable has run, what
    /// it wrote and its exit code.
    pub test: WasiTestView,
    /// The warnings that reading the header comment gave.
    pub warnings: Seq<DirectiveWarningView>,
    /// Where the job stands.
    pub phase: Phase,
}

impl View for Job {
    type V = JobView;

    closed spec fn view(&self) -> JobView {
        JobView {
            name: self.name@,
            source: self.source@,
            versions: self.versions.deep_view(),
            test: self.test@,
            warnings: self.warnings.deep_view(),
            phase: self.phase,
        }
    }
}

impl JobView {
    /// Whether the version that is being built is one of the job's.
    pub open spec fn well_formed(self) -> bool {
        self.phase.version() matches Some(k) ==> k < self.versions.len()
    }

    /// The native executable.
    pub open spec fn executable(self) -> PlaceView {
        PlaceView::Scratch(self.name)
    }

    /// The copy of the source that the compilers for WASI read.
    pub open spec fn modified_source(self) -> PlaceView {
        PlaceView::Scratch("wasi_modified_version_"@ + self.name + ".rs"@)
    }

    /// The output directory of the version `k`.
    pub open spec fn output_dir(self, k: int) -> PlaceView {
        PlaceView::OutputDir(self.versions[k].directory_name)
    }

    /// The assertion file of the version `k`.
    pub open spec fn assertion_file(self, k: int) -> PlaceView {
        PlaceView::OutputFile(self.versions[k].directory_name, self.name + ".wast"@)
    }

    /// The module of the version `k`.
    pub open spec fn module_file(self, k: int) -> PlaceView {
        PlaceView::OutputFile(self.versions[k].directory_name, self.name + ".wasm"@)
    }

    /// The command that compiles the program natively: the source, `-o`,
    /// the arguments of the header comment, the executable.
    pub open spec fn native_compile(self) -> CommandView {
        CommandView {
            program: ArgView::Text("rustc"@),
            args: seq![ArgView::Path(PlaceView::Source), ArgView::Text("-o"@)] + Seq::new(
                self.test.options.args.len(),
                |i: int| ArgView::Text(self.test.options.args[i]),
            ) + seq![ArgView::Path(self.executable())],
            in_fixture_root: false,
        }
    }

    /// The command that runs the native executable.
    pub open spec fn native_run(self) -> CommandView {
        CommandView {
            program: ArgView::Path(self.executable()),
            args: Seq::empty(),
            in_fixture_root: true,
        }
    }

    /// The command that compiles the program for the version `k`.
    pub open spec fn wasm_compile(self, k: int) -> CommandView {
        CommandView {
            program: ArgView::Text("rustc"@),
            args: seq![
                ArgView::Text("+"@ + self.versions[k].toolchain),
                ArgView::Text("--target=wasm32-wasi"@),
                ArgView::Text("-C"@),
                ArgView::Text("opt-level=z"@),
                ArgView::Path(self.modified_source()),
                ArgView::Text("-o"@),
                ArgView::Path(self.module_file(k)),
            ],
            in_fixture_root: false,
        }
    }

    /// The command that strips the module of the version `k`.
    pub open spec fn wasm_strip(self, k: int) -> CommandView {
        CommandView {
            program: ArgView::Text("wasm-strip"@),
            args: seq![ArgView::Path(self.module_file(k))],
            in_fixture_root: false,
        }
    }

    /// The command that optimizes the module of the version `k` in place.
    pub open spec fn wasm_optimize(self, k: int) -> CommandView {
        CommandView {
            program: ArgView::Text("wasm-opt"@),
            args: seq![
                ArgView::Text("-Oz"@),
                ArgView::Path(self.module_file(k)),
                ArgView::Text("-o"@),
                ArgView::Path(self.module_file(k)),
            ],
            in_fixture_root: false,
        }
    }

    /// The action that the job awaits the answer to.
    pub open spec fn action(self) -> ActionView {
        match self.phase {
            Phase::CompileNative => ActionView::Run(self.native_compile()),
            Phase::MarkExecutable => ActionView::SetMode(self.executable(), EXECUTABLE_MODE),
            Phase::RunNative => ActionView::Run(self.native_run()),
            Phase::CreateDir(k) => ActionView::CreateDir(self.output_dir(k as int)),
            Phase::WriteAssertions(k) => ActionView::Write(
                self.assertion_file(k as int),
                wast_text(self.test),
            ),
            Phase::WriteSource(k) => ActionView::Write(
                self.modified_source(),
                "#![feature(wasi_ext)]\n"@ + self.source,
            ),
            Phase::CompileWasm(k) => ActionView::Run(self.wasm_compile(k as int)),
            Phase::StripWasm(k) => ActionView::Run(self.wasm_strip(k as int)),
            Phase::OptimizeWasm(k) => ActionView::Run(self.wasm_optimize(k as int)),
            Phase::Finished => ActionView::Finish,
            Phase::Failed => ActionView::Abort(FailureView::UnexpectedEvent),
        }
    }

    /// The job once the native run gave `output`.
    pub open spec fn with_output(self, output: NativeOutputView) -> JobView {
        JobView {
            test: WasiTestView {
                stdout: output.stdout,
                stderr: output.stderr,
                result: output.result,
                ..self.test
            },
            ..self
        }
    }

    /// The report of a tool that failed in `phase`: the label of the phase
    /// and, where a version was being built, the name of its directory;
    /// where its compiler failed, also the toolchain that may be missing.
    pub open spec fn tool_report(self, phase: Phase) -> Seq<char> {
        match phase.version() {
            Some(k) if k < self.versions.len() => {
                let version = self.versions[k as int];
                if phase is CompileWasm {
                    phase.label() + ": Could not compile Wasm to WASI version "@
                        + version.directory_name + ", perhaps you need to install the `"@
                        + version.toolchain + "` rust toolchain"@
                } else {
                    phase.label() + ": WASI version "@ + version.directory_name
                }
            },
            _ => phase.label(),
        }
    }

    /// Why the run was stopped, in words.
    pub open spec fn report(self, failure: FailureView) -> Seq<char> {
        match failure {
            FailureView::CorruptDirective(e) => e.message(),
            FailureView::ToolFailed(phase, _) => self.tool_report(phase),
            FailureView::Capture(e) => e.message_text(),
            FailureView::UnexpectedEvent => "The answer does not fit the action"@,
        }
    }

    /// The job in its next phase, and the action of that phase.
    pub open spec fn advance(self) -> (JobView, ActionView) {
        let next = JobView { phase: self.phase.next(self.versions.len()), ..self };
        (next, next.action())
    }

    /// The job stopped, and the action that says why.
    pub open spec fn fail(self, failure: FailureView) -> (JobView, ActionView) {
        (JobView { phase: Phase::Failed, ..self }, ActionView::Abort(failure))
    }

    /// The job after `event`, and the action that it hands out then.
    ///
    /// An answer that does not fit the phase stops the run, and so does any
    /// answer once the job has ended. A tool that did not end with the exit
    /// code zero stops the run. When the native executable has run, what it
    /// wrote and how it ended is recorded; an outcome that cannot be
    /// recorded stops the run. Everything else leads to the next phase.
    pub open spec fn step(self, event: EventView) -> (JobView, ActionView) {
        if self.phase.ended() {
            self.fail(FailureView::UnexpectedEvent)
        } else {
            match event {
                EventView::Done => if self.phase.runs_tool() {
                    self.fail(FailureView::UnexpectedEvent)
                } else {
                    self.advance()
                },
                EventView::Exit(exit) => if !self.phase.runs_tool() {
                    self.fail(FailureView::UnexpectedEvent)
                } else if !exit.success() {
                    self.fail(FailureView::ToolFailed(self.phase, exit))
                } else if self.phase is RunNative {
                    match captured(exit) {
                        Ok(output) => self.with_output(output).advance(),
                        Err(e) => self.fail(FailureView::Capture(e)),
                    }
                } else {
                    self.advance()
                },
            }
        }
    }

    /// The job for the program `name` with the source text `source`, and
    /// its first action: the native compilation, or the end of the run where
    /// the header comment is corrupt.
    pub open spec fn start(
        name: Seq<char>,
        source: Seq<char>,
        versions: Seq<WasiVersionView>,
    ) -> (JobView, ActionView) {
        let blank = JobView {
            name,
            source,
            versions,
            test: WasiTestView {
                wasm_prog_name: name + ".wasm"@,
                stdout: Seq::empty(),
                stderr: Seq::empty(),
                result: 0,
                options: WasiOptionsView::empty(),
            },
            warnings: Seq::empty(),
            phase: Phase::CompileNative,
        };
        match source_options(source) {
            Ok(extraction) => {
                let job = JobView {
                    test: WasiTestView { options: extraction.options, ..blank.test },
                    warnings: extraction.warnings,
                    ..blank
                };
                (job, job.action())
            },
            Err(e) => blank.fail(FailureView::CorruptDirective(e)),
        }
    }
}

/// Whether `file` names a Rust source file: whether it ends in `.rs`. Only
/// such a file is a test program.
pub fn is_rust_source(file: &str) -> (b: bool)
    ensures
        b == ".rs"@.is_suffix_of(file@),
{
    ends_with(&chars_of(file), &chars_of(".rs"))
}

/// The word `text` of a command line.
fn text_arg(text: &str) -> (arg: Arg)
    ensures
        arg@ == ArgView::Text(text@),
{
    Arg::Text(text.to_owned())
}

impl Job {
    #[verifier::type_invariant]
    spec fn version_in_range(self) -> bool {
        self@.well_formed()
    }

    fn executable(&self) -> (place: Place)
        ensures
            place@ == self@.executable(),
    {
        Place::Scratch(self.name.clone())
    }

    fn modified_source(&self) -> (place: Place)
        ensures
            place@ == self@.modified_source(),
    {
        let mut file = join_text("wasi_modified_version_", self.name.as_str());
        file.append(".rs");
        Place::Scratch(file)
    }

    fn output_dir(&self, k: usize) -> (place: Place)
        requires
            k < self@.versions.len(),
        ensures
            place@ == self@.output_dir(k as int),
    {
        Place::OutputDir(self.versions[k].directory_name.clone())
    }

    fn assertion_file(&self, k: usize) -> (place: Place)
        requires
            k < self@.versions.len(),
        ensures
            place@ == self@.assertion_file(k as int),
    {
        Place::OutputFile(
            self.versions[k].directory_name.clone(),
            join_text(self.name.as_str(), ".wast"),
        )
    }

    fn module_file(&self, k: usize) -> (place: Place)
        requires
            k < self@.versions.len(),
        ensures
            place@ == self@.module_file(k as int),
    {
        Place::OutputFile(
            self.versions[k].directory_name.clone(),
            join_text(self.name.as_str(), ".wasm"),
        )
    }

    fn native_compile(&self) -> (command: Command)
        ensures
            command@ == self@.native_compile(),
    {
        let mut args: Vec<Arg> = Vec::new();
        args.push(Arg::Path(Place::Source));
        args.push(text_arg("-o"));
        let ghost head = args.deep_view();
        let ghost given = self@.test.options.args;
        let mut i: usize = 0;
        assert(args.deep_view() =~= head + Seq::new(0, |j: int| ArgView::Text(given[j])));
        while i < self.test.options.args.len()
            invariant
                i <= self.test.options.args.len(),
                given == self.test.options.args.deep_view(),
                args.deep_view() == head + Seq::new(i as nat, |j: int| ArgView::Text(given[j])),
            decreases self.test.options.args.len() - i,
        {
            let ghost before = args;
            let arg = text_arg(self.test.options.args[i].as_str());
            args.push(arg);
            proof {
                lemma_push_deep_view(before, args, arg);
                assert(args.deep_view() =~= head + Seq::new(
                    (i + 1) as nat,
                    |j: int| ArgView::Text(given[j]),
                ));
            }
            i += 1;
        }
        let ghost before = args;
        let last = Arg::Path(self.executable());
        args.push(last);
        proof {
            lemma_push_deep_view(before, args, last);
            assert(head =~= seq![ArgView::Path(PlaceView::Source), ArgView::Text("-o"@)]);
            assert(args.deep_view() =~= self@.native_compile().args);
        }
        Command { program: text_arg("rustc"), args, in_fixture_root: false }
    }

    fn native_run(&self) -> (command: Command)
        ensures
            command@ == self@.native_run(),
    {
        let args: Vec<Arg> = Vec::new();
        assert(args.deep_view() =~= Seq::empty());
        Command { program: Arg::Path(self.executable()), args, in_fixture_root: true }
    }

    fn wasm_compile(&self, k: usize) -> (command: Command)
        requires
            k < self@.versions.len(),
        ensures
            command@ == self@.wasm_compile(k as int),
    {
        let mut args: Vec<Arg> = Vec::new();
        args.push(Arg::Text(join_text("+", self.versions[k].toolchain.as_str())));
        args.push(text_arg("--target=wasm32-wasi"));
        args.push(text_arg("-C"));
        args.push(text_arg("opt-level=z"));
        args.push(Arg::Path(self.modified_source()));
        args.push(text_arg("-o"));
        args.push(Arg::Path(self.module_file(k)));
        assert(args.deep_view() =~= self@.wasm_compile(k as int).args);
        Command { program: text_arg("rustc"), args, in_fixture_root: false }
    }

    fn wasm_strip(&self, k: usize) -> (command: Command)
        requires
            k < self@.versions.len(),
        ensures
            command@ == self@.wasm_strip(k as int),
    {
        let mut args: Vec<Arg> = Vec::new();
        args.push(Arg::Path(self.module_file(k)));
        assert(args.deep_view() =~= self@.wasm_strip(k as int).args);
        Command { program: text_arg("wasm-strip"), args, in_fixture_root: false }
    }

    fn wasm_optimize(&self, k: usize) -> (command: Command)
        requires
            k < self@.versions.len(),
        ensures
            command@ == self@.wasm_optimize(k as int),
    {
        let mut args: Vec<Arg> = Vec::new();
        args.push(text_arg("-Oz"));
        args.push(Arg::Path(self.module_file(k)));
        args.push(text_arg("-o"));
        args.push(Arg::Path(self.module_file(k)));
        assert(args.deep_view() =~= self@.wasm_optimize(k as int).args);
        Command { program: text_arg("wasm-opt"), args, in_fixture_root: false }
    }

    /// The action that the job awaits the answer to.
    pub fn action(&self) -> (action: Action)
        ensures
            action@ == self@.action(),
    {
        proof {
            use_type_invariant(self);
            assert(self@.versions.len() == self.versions.len());
        }
        match self.phase {
            Phase::CompileNative => Action::Run(self.native_compile()),
            Phase::MarkExecutable => Action::SetMode(self.executable(), EXECUTABLE_MODE),
            Phase::RunNative => Action::Run(self.native_run()),
            Phase::CreateDir(k) => Action::CreateDir(self.output_dir(k)),
            Phase::WriteAssertions(k) => Action::Write(
                self.assertion_file(k),
                self.test.into_wasi_wast(),
            ),
            Phase::WriteSource(k) => Action::Write(
                self.modified_source(),
                join_text("#![feature(wasi_ext)]\n", self.source.as_str()),
            ),
            Phase::CompileWasm(k) => Action::Run(self.wasm_compile(k)),
            Phase::StripWasm(k) => Action::Run(self.wasm_strip(k)),
            Phase::OptimizeWasm(k) => Action::Run(self.wasm_optimize(k)),
            Phase::Finished => Action::Finish,
            Phase::Failed => Action::Abort(Failure::UnexpectedEvent),
        }
    }

    /// The phase that follows the current one when its action succeeded.
    fn next_phase(&self) -> (phase: Phase)
        ensures
            phase == self@.phase.next(self@.versions.len()),
            phase.version() matches Some(k) ==> k < self@.versions.len(),
    {
        proof {
            use_type_invariant(self);
            assert(self@.versions.len() == self.versions.len());
        }
        match self.phase {
            Phase::CompileNative => Phase::MarkExecutable,
            Phase::MarkExecutable => Phase::RunNative,
            Phase::RunNative => if self.versions.len() > 0 {
                Phase::CreateDir(0)
            } else {
                Phase::Finished
            },
            Phase::CreateDir(k) => Phase::WriteAssertions(k),
            Phase::WriteAssertions(k) => Phase::WriteSource(k),
            Phase::WriteSource(k) => Phase::CompileWasm(k),
            Phase::CompileWasm(k) => Phase::StripWasm(k),
            Phase::StripWasm(k) => Phase::OptimizeWasm(k),
            Phase::OptimizeWasm(k) => if k + 1 < self.versions.len() {
                Phase::CreateDir(k + 1)
            } else {
                Phase::Finished
            },
            Phase::Finished => Phase::Finished,
            Phase::Failed => Phase::Failed,
        }
    }

    fn advance(&mut self) -> (action: Action)
        ensures
            (final(self)@, action@) == old(self)@.advance(),
    {
        self.phase = self.next_phase();
        self.action()
    }

    fn fail(&mut self, failure: Failure) -> (action: Action)
        ensures
            (final(self)@, action@) == old(self)@.fail(failure@),
    {
        self.phase = Phase::Failed;
        Action::Abort(failure)
    }

    /// Begins the work on the program `name`, whose source file holds
    /// `source`, for `versions`. Gives the job and its first action.
    pub fn start(name: String, source: String, versions: Vec<WasiVersion>) -> (r: (Job, Action))
        ensures
            (r.0@, r.1@) == JobView::start(name@, source@, versions.deep_view()),
    {
        let parsed = options_of_source(source.as_str());
        let mut job = Job {
            test: WasiTest {
                wasm_prog_name: join_text(name.as_str(), ".wasm"),
                stdout: String::new(),
                stderr: String::new(),
                result: 0,
                options: WasiOptions::default(),
            },
            name,
            source,
            versions,
            warnings: Vec::new(),
            phase: Phase::CompileNative,
        };
        assert(job.warnings.deep_view() =~= Seq::empty());
        match parsed {
            Ok(extraction) => {
                job.test.options = extraction.options;
                job.warnings = extraction.warnings;
                let action = job.action();
                (job, action)
            },
            Err(e) => {
                let action = job.fail(Failure::CorruptDirective(e));
                (job, action)
            },
        }
    }

    /// Takes the answer to the action that was handed out last, and hands
    /// out the next action.
    pub fn step(&mut self, event: Event) -> (action: Action)
        ensures
            (final(self)@, action@) == old(self)@.step(event@),
    {
        if self.phase.has_ended() {
            return self.fail(Failure::UnexpectedEvent);
        }
        match event {
            Event::Done => {
                if self.phase.is_tool_run() {
                    self.fail(Failure::UnexpectedEvent)
                } else {
                    self.advance()
                }
            },
            Event::Exit(exit) => {
                if !self.phase.is_tool_run() {
                    return self.fail(Failure::UnexpectedEvent);
                }
                if !exit.success() {
                    let phase = self.phase;
                    return self.fail(Failure::ToolFailed(phase, exit));
                }
                match self.phase {
                    Phase::RunNative => match NativeOutput::capture(exit) {
                        Ok(output) => {
                            let (stdout, stderr, result) = output.into_parts();
                            self.test.stdout = stdout;
                            self.test.stderr = stderr;
                            self.test.result = result;
                            self.advance()
                        },
                        Err(e) => self.fail(Failure::Capture(e)),
                    },
                    _ => self.advance(),
                }
            },
        }
    }

    /// Why the run was stopped, in words.
    pub fn report(&self, failure: &Failure) -> (s: String)
        ensures
            s@ == self@.report(failure@),
    {
        match failure {
            Failure::CorruptDirective(e) => e.message(),
            Failure::Capture(e) => e.message(),
            Failure::UnexpectedEvent => "The answer does not fit the action".to_owned(),
            Failure::ToolFailed(phase, _) => {
                let mut s = phase.label_text().to_owned();
                match phase.version_index() {
                    Some(k) => {
                        if k < self.versions.len() {
                            match phase {
                                Phase::CompileWasm(_) => {
                                    s.append(": Could not compile Wasm to WASI version ");
                                    s.append(self.versions[k].directory_name.as_str());
                                    s.append(", perhaps you need to install the `");
                                    s.append(self.versions[k].toolchain.as_str());
                                    s.append("` rust toolchain");
                                },
                                _ => {
                                    s.append(": WASI version ");
                                    s.append(self.versions[k].directory_name.as_str());
                                },
                            }
                        }
                    },
                    None => {},
                }
                s
            },
        }
    }

    /// Where the job stands.
    pub fn phase(&self) -> (phase: Phase)
        ensures
            phase == self@.phase,
    {
        self.phase
    }

    /// The warnings that reading the header comment gave, in the order of
    /// its lines.
    pub fn warnings(&self) -> (warnings: &Vec<DirectiveWarning>)
        ensures
            warnings.deep_view() == self@.warnings,
    {
        &self.warnings
    }

    /// What the assertion files state.
    pub fn test(&self) -> (test: &WasiTest)
        ensures
            test@ == self@.test,
    {
        &self.test
    }
}

impl JobView {
    /// Whether `event` is the answer of an action that succeeded: the
    /// answer fits the phase, a tool ended with the exit code zero, and the
    /// outcome of the native run can be recorded.
    pub open spec fn succeeds(self, event: EventView) -> bool {
        &&& !self.phase.ended()
        &&& match event {
            EventView::Done => !self.phase.runs_tool(),
            EventView::Exit(exit) => {
                &&& self.phase.runs_tool()
                &&& exit.success()
                &&& self.phase is RunNative ==> captured(exit) is Ok
            },
        }
    }

    /// The job after `events`, taken in order.
    pub open spec fn after(self, events: Seq<EventView>) -> JobView
        decreases events.len(),
    {
        if events.len() == 0 {
            self
        } else {
            self.after(events.drop_last()).step(events.last()).0
        }
    }

    /// Whether each of `events` is the answer of an action that succeeded.
    pub open spec fn all_succeed(self, events: Seq<EventView>) -> bool
        decreases events.len(),
    {
        events.len() == 0 || (self.all_succeed(events.drop_last()) && self.after(
            events.drop_last(),
        ).succeeds(events.last()))
    }
}

/// The phase that a job is in after `i` actions have succeeded, with
/// `versions` versions to build: the three native phases, then six phases
/// for each version, then the end.
pub open spec fn phase_after(i: nat, versions: nat) -> Phase {
    if i == 0 {
        Phase::CompileNative
    } else if i == 1 {
        Phase::MarkExecutable
    } else if i == 2 {
        Phase::RunNative
    } else if i >= 3 + 6 * versions {
        Phase::Finished
    } else {
        let k = ((i - 3) / 6) as usize;
        let part = (i - 3) % 6;
        if part == 0 {
            Phase::CreateDir(k)
        } else if part == 1 {
            Phase::WriteAssertions(k)
        } else if part == 2 {
            Phase::WriteSource(k)
        } else if part == 3 {
            Phase::CompileWasm(k)
        } else if part == 4 {
            Phase::StripWasm(k)
        } else {
            Phase::OptimizeWasm(k)
        }
    }
}

/// A job begins well-formed. Where the header comment can be read, it
/// begins with the native compilation, under the options of the header
/// comment and with nothing known of the outcome yet; where the header
/// comment is corrupt, it begins stopped.
pub proof fn law_start(name: Seq<char>, source: Seq<char>, versions: Seq<WasiVersionView>)
    ensures
        JobView::start(name, source, versions).0.well_formed(),
        JobView::start(name, source, versions).0.name == name,
        JobView::start(name, source, versions).0.source == source,
        JobView::start(name, source, versions).0.versions == versions,
        JobView::start(name, source, versions).0.test.wasm_prog_name == name + ".wasm"@,
        source_options(source) matches Ok(extraction) ==> {
            let (job, action) = JobView::start(name, source, versions);
            &&& job.phase is CompileNative
            &&& job.test.options == extraction.options
            &&& job.warnings == extraction.warnings
            &&& action == ActionView::Run(job.native_compile())
        },
        source_options(source) matches Err(e) ==> {
            let (job, action) = JobView::start(name, source, versions);
            &&& job.phase is Failed
            &&& action == ActionView::Abort(FailureView::CorruptDirective(e))
        },
{
}

/// A job stays well-formed, whatever the answer.
pub proof fn law_step_keeps_well_formed(job: JobView, event: EventView)
    requires
        job.well_formed(),
        job.versions.len() <= usize::MAX,
    ensures
        job.step(event).0.well_formed(),
{
}

/// The native compiler gets the source file, `-o`, every argument of the
/// header comment in order, and the path of the executable last.
pub proof fn law_native_compile_passes_arguments(job: JobView, i: int)
    requires
        0 <= i < job.test.options.args.len(),
    ensures
        job.native_compile().args.len() == job.test.options.args.len() + 3,
        job.native_compile().args[0] == ArgView::Path(PlaceView::Source),
        job.native_compile().args[1] == ArgView::Text("-o"@),
        job.native_compile().args[2 + i] == ArgView::Text(job.test.options.args[i]),
        job.native_compile().args.last() == ArgView::Path(job.executable()),
{
}

/// An action that succeeds leads to the next phase and to the action of
/// that phase, and changes nothing else but, after the native run, the
/// expected outcome. Any other answer stops the run.
pub proof fn law_step_outcomes(job: JobView, event: EventView)
    ensures
        job.succeeds(event) ==> {
            &&& job.step(event).0.phase == job.phase.next(job.versions.len())
            &&& job.step(event).1 == job.step(event).0.action()
            &&& job.step(event).0.name == job.name
            &&& job.step(event).0.source == job.source
            &&& job.step(event).0.versions == job.versions
            &&& job.step(event).0.warnings == job.warnings
            &&& job.step(event).0.test.options == job.test.options
            &&& job.step(event).0.test.wasm_prog_name == job.test.wasm_prog_name
            &&& !(job.phase is RunNative) ==> job.step(event).0.test == job.test
        },
        !job.succeeds(event) ==> {
            &&& job.step(event).0.phase is Failed
            &&& job.step(event).1 is Abort
        },
{
}

/// The phases follow each other in the order of `phase_after`.
pub proof fn law_phases_in_order(i: nat, versions: nat)
    requires
        versions <= usize::MAX,
        i < 3 + 6 * versions,
    ensures
        phase_after(i + 1, versions) == phase_after(i, versions).next(versions),
{
    if i >= 3 {
        let k = (i - 3) / 6;
        let part = (i - 3) % 6;
        assert(i - 3 == 6 * k + part);
        if part == 5 {
            assert((i + 1 - 3) / 6 == k + 1);
            assert((i + 1 - 3) % 6 == 0);
        } else {
            assert((i + 1 - 3) / 6 == k);
            assert((i + 1 - 3) % 6 == part + 1);
        }
    }
}

/// No phase comes twice in a run: two steps in the same phase are the same
/// step.
pub proof fn law_each_phase_once(i: nat, j: nat, versions: nat)
    requires
        versions <= usize::MAX,
        i <= 3 + 6 * versions,
        j <= 3 + 6 * versions,
        phase_after(i, versions) == phase_after(j, versions),
    ensures
        i == j,
{
    if i >= 3 && j >= 3 && i < 3 + 6 * versions && j < 3 + 6 * versions {
        assert(i - 3 == 6 * ((i - 3) / 6) + (i - 3) % 6);
        assert(j - 3 == 6 * ((j - 3) / 6) + (j - 3) % 6);
    }
}

/// A run in which every action succeeds goes through the phases in order:
/// after `events`, a job that began with the native compilation is in the
/// phase `phase_after(events.len(), ..)`, and it still works on the same
/// program, for the same versions, under the same options.
pub proof fn law_successful_run(job: JobView, events: Seq<EventView>)
    requires
        job.phase is CompileNative,
        job.versions.len() <= usize::MAX,
        events.len() <= 3 + 6 * job.versions.len(),
        job.all_succeed(events),
    ensures
        job.after(events).phase == phase_after(events.len(), job.versions.len()),
        job.after(events).name == job.name,
        job.after(events).source == job.source,
        job.after(events).versions == job.versions,
        job.after(events).test.options == job.test.options,
        job.after(events).test.wasm_prog_name == job.test.wasm_prog_name,
    decreases events.len(),
{
    if events.len() > 0 {
        let before = events.drop_last();
        law_successful_run(job, before);
        law_step_outcomes(job.after(before), events.last());
        law_phases_in_order(before.len(), job.versions.len());
    }
}

/// In a run in which every action succeeds, each version gets exactly one
/// assertion file and one module, in its own directory and under the base
/// name of the program: the assertion file of the version `k` is written at
/// step `6k + 4` and at no other, its module is compiled at step `6k + 6`
/// and at no other, and the run has ended after `6n + 3` steps.
pub proof fn law_one_fixture_per_version(job: JobView, k: nat, i: nat)
    requires
        job.versions.len() <= usize::MAX,
        k < job.versions.len(),
        i <= 3 + 6 * job.versions.len(),
    ensures
        phase_after(i, job.versions.len()) == Phase::WriteAssertions(k as usize) <==> i == 6 * k
            + 4,
        phase_after(i, job.versions.len()) == Phase::CompileWasm(k as usize) <==> i == 6 * k + 6,
        phase_after(3 + 6 * job.versions.len(), job.versions.len()) is Finished,
        (JobView { phase: Phase::WriteAssertions(k as usize), ..job }).action()
            == ActionView::Write(
            PlaceView::OutputFile(job.versions[k as int].directory_name, job.name + ".wast"@),
            wast_text(job.test),
        ),
        (JobView { phase: Phase::CompileWasm(k as usize), ..job }).action() matches ActionView::Run(
            command,
        ) && command.args.last() == ArgView::Path(
            PlaceView::OutputFile(job.versions[k as int].directory_name, job.name + ".wasm"@),
        ),
{
    let n = job.versions.len();
    if 3 <= i < 3 + 6 * n {
        assert(i - 3 == 6 * ((i - 3) / 6) + (i - 3) % 6);
    }
    assert((6 * k + 4 - 3) / 6 == k && (6 * k + 4 - 3) % 6 == 1) by {
        assert(6 * k + 1 == 6 * ((6 * k + 1) / 6) + (6 * k + 1) % 6);
    }
    assert((6 * k + 6 - 3) / 6 == k && (6 * k + 6 - 3) % 6 == 3) by {
        assert(6 * k + 3 == 6 * ((6 * k + 3) / 6) + (6 * k + 3) % 6);
    }
}

/// A native run that a signal ended, and so has no exit code, stops the
/// run of the job.
pub proof fn law_signal_stops_run(job: JobView, exit: ProcessExitView)
    requires
        job.phase is RunNative,
        exit.code is None,
    ensures
        job.step(EventView::Exit(exit)) == job.fail(
            FailureView::ToolFailed(Phase::RunNative, exit),
        ),
        job.step(EventView::Exit(exit)).0.phase is Failed,
        job.step(EventView::Exit(exit)).1 is Abort,
{
}

/// No assertion file is written before the native run has ended well: the
/// first four actions of a run are none of them the writing of one.
pub proof fn law_assertions_follow_native_run(i: nat, versions: nat)
    requires
        phase_after(i, versions) is WriteAssertions,
    ensures
        i >= 4,
{
}

/// The source file is only read: no action writes to it, changes its
/// permissions or creates it. What the compilers for WASI read is a copy in
/// the scratch directory, with the feature header before the source text.
pub proof fn law_source_is_only_read(job: JobView)
    ensures
        job.action() matches ActionView::Write(place, _) ==> place != PlaceView::Source,
        job.action() matches ActionView::SetMode(place, _) ==> place != PlaceView::Source,
        job.action() matches ActionView::CreateDir(place) ==> place != PlaceView::Source,
        job.phase is WriteSource ==> job.action() == ActionView::Write(
            job.modified_source(),
            "#![feature(wasi_ext)]\n"@ + job.source,
        ),
{
}

/// A job that has stopped stays stopped, and hands out nothing but the
/// end of the run.
pub proof fn law_failed_is_final(job: JobView, event: EventView)
    requires
        job.phase is Failed,
    ensures
        job.step(event).0.phase is Failed,
        job.step(event).1 is Abort,
{
}

} // verus!
