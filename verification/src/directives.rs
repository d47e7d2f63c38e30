//! The directive language of a test program's header comment.
//!
//! A source file that begins with the marker `// WASI:` carries directives:
//! every line after the first that begins with `// `, up to the first line
//! that does not. Each such line is cut into tokens at white space. The first
//! token after the comment prefix names the directive and ends in a colon,
//! the second is its payload.

use crate::options::{
    lemma_push_deep_view, Directive, DirectiveView, WasiOptions, WasiOptionsView,
};
use crate::text::{
    begins_with, chars_of, join_text, is_white_space, same_text, slice_of, string_of, white_space,
};
use vstd::prelude::*;

verus! {

/// What a source file begins with when it carries directives.
pub open spec fn marker() -> Seq<char> {
    "// WASI:"@
}

/// What every directive line begins with.
pub open spec fn comment_prefix() -> Seq<char> {
    "// "@
}

/// The number of characters from `from` up to the next line feed, or up to
/// the end of `s` where none follows.
pub open spec fn line_len(s: Seq<char>, from: int) -> nat
    decreases s.len() - from,
{
    if from < 0 || from >= s.len() || s[from] == '\n' {
        0
    } else {
        1 + line_len(s, from + 1)
    }
}

/// The number of characters from `from` up to the next white space, or up to
/// the end of `s` where none follows.
pub open spec fn token_len(s: Seq<char>, from: int) -> nat
    decreases s.len() - from,
{
    if from < 0 || from >= s.len() || white_space(s[from]) {
        0
    } else {
        1 + token_len(s, from + 1)
    }
}

/// A line that starts within `s` ends within `s`.
pub proof fn lemma_line_len_bound(s: Seq<char>, from: int)
    requires
        0 <= from <= s.len(),
    ensures
        from + line_len(s, from) <= s.len(),
    decreases s.len() - from,
{
    if from < s.len() && s[from] != '\n' {
        lemma_line_len_bound(s, from + 1);
    }
}

/// A token that starts within `s` ends within `s`.
pub proof fn lemma_token_len_bound(s: Seq<char>, from: int)
    requires
        0 <= from <= s.len(),
    ensures
        from + token_len(s, from) <= s.len(),
    decreases s.len() - from,
{
    if from < s.len() && !white_space(s[from]) {
        lemma_token_len_bound(s, from + 1);
    }
}

#[via_fn]
proof fn tokens_from_terminates(s: Seq<char>, from: int) {
    if 0 <= from < s.len() && !white_space(s[from]) {
        lemma_token_len_bound(s, from);
    }
}

#[via_fn]
proof fn directive_lines_terminates(s: Seq<char>, from: int) {
    if 0 <= from < s.len() {
        lemma_line_len_bound(s, from);
    }
}

/// The tokens of `s` that start at or after `from`: the longest runs of
/// characters that are not white space, in order.
pub open spec fn tokens_from(s: Seq<char>, from: int) -> Seq<Seq<char>>
    decreases s.len() - from,
    via tokens_from_terminates
{
    if from < 0 || from >= s.len() {
        Seq::empty()
    } else if white_space(s[from]) {
        tokens_from(s, from + 1)
    } else {
        let end = from + token_len(s, from);
        seq![s.subrange(from, end)] + tokens_from(s, end)
    }
}

/// The lines of `s` that start at or after `from`, as long as each begins
/// with the comment prefix. A line ends before its line feed. A carriage
/// return before the line feed stays in the line: it is white space, and so
/// never part of a token.
pub open spec fn directive_lines(s: Seq<char>, from: int) -> Seq<Seq<char>>
    decreases s.len() + 1 - from,
    via directive_lines_terminates
{
    if from < 0 || from >= s.len() {
        Seq::empty()
    } else {
        let end = from + line_len(s, from);
        let line = s.subrange(from, end);
        if comment_prefix().is_prefix_of(line) {
            seq![line] + directive_lines(s, end + 1)
        } else {
            Seq::empty()
        }
    }
}

/// Whether `sep` stands at `k` in `s` and nowhere else.
pub open spec fn sole_separator(s: Seq<char>, sep: char, k: int) -> bool {
    &&& 0 <= k < s.len()
    &&& s[k] == sep
    &&& forall|j: int| 0 <= j < s.len() && j != k ==> s[j] != sep
}

/// The two parts of `s` around its separator, where `sep` occurs in `s`
/// exactly once.
pub open spec fn split_pair(s: Seq<char>, sep: char) -> Option<(Seq<char>, Seq<char>)> {
    if exists|k: int| sole_separator(s, sep, k) {
        let k = choose|k: int| sole_separator(s, sep, k);
        Some((s.subrange(0, k), s.subrange(k + 1, s.len() as int)))
    } else {
        None
    }
}

/// Why a directive line was dropped.
#[derive(Debug, Clone, PartialEq, Eq)]
pub enum DirectiveWarning {
    /// The payload of `mapdir` is not an alias, one colon and a directory.
    MalformedMapDir(String),
    /// The payload of `env` is not a name, one equals sign and a value.
    MalformedEnv(String),
    /// The named directive has no payload.
    MissingPayload(String),
    /// No directive has this name.
    Unsupported(String),
}

/// A `DirectiveWarning`, as sequences of characters.
pub enum DirectiveWarningView {
    MalformedMapDir(Seq<char>),
    MalformedEnv(Seq<char>),
    MissingPayload(Seq<char>),
    Unsupported(Seq<char>),
}

impl View for DirectiveWarning {
    type V = DirectiveWarningView;

    open spec fn view(&self) -> DirectiveWarningView {
        match self {
            DirectiveWarning::MalformedMapDir(payload) => DirectiveWarningView::MalformedMapDir(
                payload@,
            ),
            DirectiveWarning::MalformedEnv(payload) => DirectiveWarningView::MalformedEnv(payload@),
            DirectiveWarning::MissingPayload(name) => DirectiveWarningView::MissingPayload(name@),
            DirectiveWarning::Unsupported(name) => DirectiveWarningView::Unsupported(name@),
        }
    }
}

impl DeepView for DirectiveWarning {
    type V = DirectiveWarningView;

    open spec fn deep_view(&self) -> DirectiveWarningView {
        self@
    }
}

impl DirectiveWarningView {
    /// The warning in words.
    pub open spec fn message(self) -> Seq<char> {
        match self {
            DirectiveWarningView::MalformedMapDir(payload) => "Parse error in mapdir "@ + payload
                + " not parsed correctly"@,
            DirectiveWarningView::MalformedEnv(payload) => "Parse error in env "@ + payload
                + " not parsed correctly"@,
            DirectiveWarningView::MissingPayload(name) => "WARN: comment arg: `"@ + name
                + "` has no value"@,
            DirectiveWarningView::Unsupported(name) => "WARN: comment arg: `"@ + name
                + "` is not supported"@,
        }
    }
}

impl DirectiveWarning {
    /// The warning in words.
    pub fn message(&self) -> (s: String)
        ensures
            s@ == self@.message(),
    {
        match self {
            DirectiveWarning::MalformedMapDir(payload) => {
                let mut s = join_text("Parse error in mapdir ", payload.as_str());
                s.append(" not parsed correctly");
                s
            },
            DirectiveWarning::MalformedEnv(payload) => {
                let mut s = join_text("Parse error in env ", payload.as_str());
                s.append(" not parsed correctly");
                s
            },
            DirectiveWarning::MissingPayload(name) => {
                let mut s = join_text("WARN: comment arg: `", name.as_str());
                s.append("` has no value");
                s
            },
            DirectiveWarning::Unsupported(name) => {
                let mut s = join_text("WARN: comment arg: `", name.as_str());
                s.append("` is not supported");
                s
            },
        }
    }
}

/// Why a header comment cannot be read at all.
#[derive(Debug, Clone, PartialEq, Eq)]
pub enum DirectiveError {
    /// A directive line holds nothing after the comment prefix.
    MissingName,
    /// The first token of a directive line, which does not end in a colon.
    MissingColon(String),
}

/// A `DirectiveError`, as sequences of characters.
pub enum DirectiveErrorView {
    MissingName,
    MissingColon(Seq<char>),
}

impl View for DirectiveError {
    type V = DirectiveErrorView;

    open spec fn view(&self) -> DirectiveErrorView {
        match self {
            DirectiveError::MissingName => DirectiveErrorView::MissingName,
            DirectiveError::MissingColon(token) => DirectiveErrorView::MissingColon(token@),
        }
    }
}

impl DirectiveErrorView {
    /// The error in words.
    pub open spec fn message(self) -> Seq<char> {
        match self {
            DirectiveErrorView::MissingName => "Directive line without an argname"@,
            DirectiveErrorView::MissingColon(token) =>
                "Final character of argname must be a colon: `"@ + token + "`"@,
        }
    }
}

impl DirectiveError {
    /// The error in words.
    pub fn message(&self) -> (s: String)
        ensures
            s@ == self@.message(),
    {
        match self {
            DirectiveError::MissingName => "Directive line without an argname".to_owned(),
            DirectiveError::MissingColon(token) => {
                let mut s = join_text("Final character of argname must be a colon: `", token.as_str());
                s.append("`");
                s
            },
        }
    }
}

/// What one directive line amounts to.
#[derive(Debug, Clone, PartialEq, Eq)]
pub enum LineOutcome {
    /// The line sets an option.
    Directive(Directive),
    /// The line is dropped, and reading goes on.
    Warning(DirectiveWarning),
    /// The line is corrupt, and reading stops.
    Corrupt(DirectiveError),
}

/// A `LineOutcome`, as sequences of characters.
pub enum LineOutcomeView {
    Directive(DirectiveView),
    Warning(DirectiveWarningView),
    Corrupt(DirectiveErrorView),
}

impl View for LineOutcome {
    type V = LineOutcomeView;

    open spec fn view(&self) -> LineOutcomeView {
        match self {
            LineOutcome::Directive(d) => LineOutcomeView::Directive(d@),
            LineOutcome::Warning(w) => LineOutcomeView::Warning(w@),
            LineOutcome::Corrupt(e) => LineOutcomeView::Corrupt(e@),
        }
    }
}

/// Whether a directive of this name exists.
pub open spec fn known_directive(name: Seq<char>) -> bool {
    ||| name == "mapdir"@
    ||| name == "env"@
    ||| name == "dir"@
    ||| name == "arg"@
    ||| name == "tempdir"@
}

/// What the directive `name` makes of `payload`.
pub open spec fn directive_of(name: Seq<char>, payload: Seq<char>) -> LineOutcomeView {
    if name == "mapdir"@ {
        match split_pair(payload, ':') {
            Some((alias, target)) => LineOutcomeView::Directive(
                DirectiveView::MapDir(alias, target),
            ),
            None => LineOutcomeView::Warning(DirectiveWarningView::MalformedMapDir(payload)),
        }
    } else if name == "env"@ {
        match split_pair(payload, '=') {
            Some((var, value)) => LineOutcomeView::Directive(DirectiveView::Env(var, value)),
            None => LineOutcomeView::Warning(DirectiveWarningView::MalformedEnv(payload)),
        }
    } else if name == "dir"@ {
        LineOutcomeView::Directive(DirectiveView::Dir(payload))
    } else if name == "arg"@ {
        LineOutcomeView::Directive(DirectiveView::Arg(payload))
    } else if name == "tempdir"@ {
        LineOutcomeView::Directive(DirectiveView::TempDir(payload))
    } else {
        LineOutcomeView::Warning(DirectiveWarningView::Unsupported(name))
    }
}

/// What the tokens that follow the comment prefix amount to. Tokens after
/// the payload are not read.
pub open spec fn read_tokens(tokens: Seq<Seq<char>>) -> LineOutcomeView {
    if tokens.len() == 0 {
        LineOutcomeView::Corrupt(DirectiveErrorView::MissingName)
    } else if tokens[0].len() == 0 || tokens[0].last() != ':' {
        LineOutcomeView::Corrupt(DirectiveErrorView::MissingColon(tokens[0]))
    } else {
        let name = tokens[0].drop_last();
        if !known_directive(name) {
            LineOutcomeView::Warning(DirectiveWarningView::Unsupported(name))
        } else if tokens.len() < 2 {
            LineOutcomeView::Warning(DirectiveWarningView::MissingPayload(name))
        } else {
            directive_of(name, tokens[1])
        }
    }
}

/// What a directive line amounts to.
pub open spec fn read_line(line: Seq<char>) -> LineOutcomeView {
    read_tokens(tokens_from(line, comment_prefix().len() as int))
}

/// The options and the warnings that a header comment gives.
#[derive(Debug, Clone, PartialEq, Eq)]
pub struct Extraction {
    /// The options that the directives set, each list in the order of the lines.
    pub options: WasiOptions,
    /// One warning for each line that was dropped, in the order of the lines.
    pub warnings: Vec<DirectiveWarning>,
}

/// An `Extraction`, as sequences of characters.
pub struct ExtractionView {
    pub options: WasiOptionsView,
    pub warnings: Seq<DirectiveWarningView>,
}

impl ExtractionView {
    /// No option and no warning.
    pub open spec fn empty() -> ExtractionView {
        ExtractionView { options: WasiOptionsView::empty(), warnings: Seq::empty() }
    }
}

impl View for Extraction {
    type V = ExtractionView;

    open spec fn view(&self) -> ExtractionView {
        ExtractionView { options: self.options@, warnings: self.warnings.deep_view() }
    }
}

/// What `lines` add to `acc`, read in order up to the first corrupt one.
pub open spec fn read_lines(lines: Seq<Seq<char>>, acc: ExtractionView) -> Result<
    ExtractionView,
    DirectiveErrorView,
>
    decreases lines.len(),
{
    if lines.len() == 0 {
        Ok(acc)
    } else {
        match read_line(lines[0]) {
            LineOutcomeView::Directive(d) => read_lines(
                lines.drop_first(),
                ExtractionView { options: acc.options.with(d), ..acc },
            ),
            LineOutcomeView::Warning(w) => read_lines(
                lines.drop_first(),
                ExtractionView { warnings: acc.warnings.push(w), ..acc },
            ),
            LineOutcomeView::Corrupt(e) => Err(e),
        }
    }
}

/// What the header comment of `source` gives: nothing where `source` does
/// not begin with the marker, else what its directive lines amount to. The
/// first line is the marker's and is not read.
pub open spec fn extraction(source: Seq<char>) -> Result<
    Option<ExtractionView>,
    DirectiveErrorView,
> {
    if marker().is_prefix_of(source) {
        match read_lines(
            directive_lines(source, line_len(source, 0) as int + 1),
            ExtractionView::empty(),
        ) {
            Ok(e) => Ok(Some(e)),
            Err(e) => Err(e),
        }
    } else {
        Ok(None)
    }
}

/// The options that `source` runs under: those of its header comment, and
/// none where it has no header comment.
pub open spec fn source_options(source: Seq<char>) -> Result<ExtractionView, DirectiveErrorView> {
    match extraction(source) {
        Ok(Some(e)) => Ok(e),
        Ok(None) => Ok(ExtractionView::empty()),
        Err(e) => Err(e),
    }
}

/// The view of what `extract_args_from_source_file` returns.
pub open spec fn extraction_view(r: Result<Option<Extraction>, DirectiveError>) -> Result<
    Option<ExtractionView>,
    DirectiveErrorView,
> {
    match r {
        Ok(Some(e)) => Ok(Some(e@)),
        Ok(None) => Ok(None),
        Err(e) => Err(e@),
    }
}

/// The view of what `options_of_source` returns.
pub open spec fn source_options_view(r: Result<Extraction, DirectiveError>) -> Result<
    ExtractionView,
    DirectiveErrorView,
> {
    match r {
        Ok(e) => Ok(e@),
        Err(e) => Err(e@),
    }
}

/// Where the line that starts at `from` ends.
fn line_end(s: &Vec<char>, from: usize) -> (end: usize)
    requires
        from <= s.len(),
    ensures
        end == from + line_len(s@, from as int),
        end <= s.len(),
{
    let mut i: usize = from;
    while i < s.len() && s[i] != '\n'
        invariant
            from <= i <= s.len(),
            i + line_len(s@, i as int) == from + line_len(s@, from as int),
        decreases s.len() - i,
    {
        i += 1;
    }
    i
}

/// The first token of `s` at or after `from`: where it starts and where it
/// ends, or nothing where only white space is left.
fn next_token(s: &Vec<char>, from: usize) -> (r: Option<(usize, usize)>)
    requires
        from <= s.len(),
    ensures
        match r {
            Some((start, end)) => {
                &&& from <= start < end <= s.len()
                &&& end == start + token_len(s@, start as int)
                &&& tokens_from(s@, from as int) == seq![s@.subrange(start as int, end as int)]
                    + tokens_from(s@, end as int)
            },
            None => tokens_from(s@, from as int).len() == 0,
        },
{
    let mut start: usize = from;
    while start < s.len() && is_white_space(s[start])
        invariant
            from <= start <= s.len(),
            tokens_from(s@, start as int) == tokens_from(s@, from as int),
        decreases s.len() - start,
    {
        start += 1;
    }
    if start >= s.len() {
        return None;
    }
    let mut end: usize = start + 1;
    while end < s.len() && !is_white_space(s[end])
        invariant
            start < end <= s.len(),
            end + token_len(s@, end as int) == start + token_len(s@, start as int),
        decreases s.len() - end,
    {
        end += 1;
    }
    Some((start, end))
}

/// The two parts of `s` around `sep`, where `sep` occurs in `s` exactly once.
fn split_at_sole(s: &Vec<char>, sep: char) -> (r: Option<(String, String)>)
    ensures
        match r {
            Some((a, b)) => split_pair(s@, sep) == Some((a@, b@)),
            None => split_pair(s@, sep) is None,
        },
{
    let mut k: usize = 0;
    while k < s.len() && s[k] != sep
        invariant
            k <= s.len(),
            forall|j: int| 0 <= j < k ==> s@[j] != sep,
        decreases s.len() - k,
    {
        k += 1;
    }
    if k >= s.len() {
        assert(forall|i: int| !sole_separator(s@, sep, i));
        return None;
    }
    let mut next: usize = k + 1;
    while next < s.len() && s[next] != sep
        invariant
            k < next <= s.len(),
            forall|j: int| k < j < next ==> s@[j] != sep,
        decreases s.len() - next,
    {
        next += 1;
    }
    if next < s.len() {
        assert forall|i: int| !sole_separator(s@, sep, i) by {
            if i == k as int {
                assert(s@[next as int] == sep);
            } else {
                assert(s@[k as int] == sep);
            }
        }
        return None;
    }
    assert(sole_separator(s@, sep, k as int));
    proof {
        let chosen = choose|i: int| sole_separator(s@, sep, i);
        assert(chosen == k as int);
    }
    Some((string_of(s, 0, k), string_of(s, k + 1, s.len())))
}

/// Whether a directive of this name exists.
fn is_known_directive(name: &Vec<char>) -> (b: bool)
    ensures
        b == known_directive(name@),
{
    same_text(name, &chars_of("mapdir")) || same_text(name, &chars_of("env")) || same_text(
        name,
        &chars_of("dir"),
    ) || same_text(name, &chars_of("arg")) || same_text(name, &chars_of("tempdir"))
}

/// What the directive `name` makes of `payload`.
fn make_directive(name: &Vec<char>, payload: &Vec<char>) -> (r: LineOutcome)
    ensures
        r@ == directive_of(name@, payload@),
{
    let whole = string_of(payload, 0, payload.len());
    assert(whole@ == payload@) by {
        assert(payload@.subrange(0, payload@.len() as int) =~= payload@);
    }
    if same_text(name, &chars_of("mapdir")) {
        match split_at_sole(payload, ':') {
            Some((alias, target)) => LineOutcome::Directive(Directive::MapDir(alias, target)),
            None => LineOutcome::Warning(DirectiveWarning::MalformedMapDir(whole)),
        }
    } else if same_text(name, &chars_of("env")) {
        match split_at_sole(payload, '=') {
            Some((var, value)) => LineOutcome::Directive(Directive::Env(var, value)),
            None => LineOutcome::Warning(DirectiveWarning::MalformedEnv(whole)),
        }
    } else if same_text(name, &chars_of("dir")) {
        LineOutcome::Directive(Directive::Dir(whole))
    } else if same_text(name, &chars_of("arg")) {
        LineOutcome::Directive(Directive::Arg(whole))
    } else if same_text(name, &chars_of("tempdir")) {
        LineOutcome::Directive(Directive::TempDir(whole))
    } else {
        let text = string_of(name, 0, name.len());
        assert(text@ == name@) by {
            assert(name@.subrange(0, name@.len() as int) =~= name@);
        }
        LineOutcome::Warning(DirectiveWarning::Unsupported(text))
    }
}

/// What the directive line `line` amounts to, where `prefix_len` is the
/// length of the comment prefix.
fn read_line_chars(line: &Vec<char>, prefix_len: usize) -> (r: LineOutcome)
    requires
        prefix_len == comment_prefix().len(),
    ensures
        r@ == read_line(line@),
{
    if prefix_len > line.len() {
        return LineOutcome::Corrupt(DirectiveError::MissingName);
    }
    let ghost tokens = tokens_from(line@, prefix_len as int);
    match next_token(line, prefix_len) {
        None => LineOutcome::Corrupt(DirectiveError::MissingName),
        Some((start, end)) => {
            assert(tokens[0] == line@.subrange(start as int, end as int));
            if line[end - 1] != ':' {
                return LineOutcome::Corrupt(
                    DirectiveError::MissingColon(string_of(line, start, end)),
                );
            }
            let name = slice_of(line, start, end - 1);
            assert(name@ == tokens[0].drop_last()) by {
                assert(name@ =~= tokens[0].drop_last());
            }
            if !is_known_directive(&name) {
                let text = string_of(line, start, end - 1);
                return LineOutcome::Warning(DirectiveWarning::Unsupported(text));
            }
            match next_token(line, end) {
                None => {
                    assert(tokens.len() == 1);
                    let text = string_of(line, start, end - 1);
                    LineOutcome::Warning(DirectiveWarning::MissingPayload(text))
                },
                Some((from, to)) => {
                    let payload = slice_of(line, from, to);
                    assert(tokens.len() >= 2);
                    assert(tokens[1] == payload@);
                    make_directive(&name, &payload)
                },
            }
        },
    }
}

/// Reads one directive line: the line as it stands in the source, comment
/// prefix included and line feed excluded.
pub fn parse_directive_line(line: &str) -> (r: LineOutcome)
    ensures
        r@ == read_line(line@),
{
    let prefix = chars_of("// ");
    read_line_chars(&chars_of(line), prefix.len())
}

/// Pulls the options of a test program out of the comment at the top of its
/// source: nothing where the source does not begin with the marker, else the
/// options that its directive lines set, with a warning for each line that
/// was dropped, or the reason why a line is corrupt.
pub fn extract_args_from_source_file(source_code: &str) -> (r: Result<
    Option<Extraction>,
    DirectiveError,
>)
    ensures
        extraction_view(r) == extraction(source_code@),
{
    let src = chars_of(source_code);
    if !begins_with(&src, &chars_of("// WASI:")) {
        return Ok(None);
    }
    let prefix = chars_of("// ");
    let mut acc = Extraction { options: WasiOptions::default(), warnings: Vec::new() };
    assert(acc@ == ExtractionView::empty()) by {
        assert(acc.warnings.deep_view() =~= Seq::empty());
    }
    let first_end = line_end(&src, 0);
    let ghost all = directive_lines(src@, first_end as int + 1);
    if first_end >= src.len() {
        return Ok(Some(acc));
    }
    let mut pos: usize = first_end + 1;
    while pos < src.len()
        invariant
            pos <= src.len(),
            src@ == source_code@,
            prefix@ == comment_prefix(),
            marker().is_prefix_of(src@),
            all == directive_lines(src@, line_len(src@, 0) as int + 1),
            read_lines(all, ExtractionView::empty()) == read_lines(
                directive_lines(src@, pos as int),
                acc@,
            ),
        decreases src.len() - pos,
    {
        let end = line_end(&src, pos);
        let line = slice_of(&src, pos, end);
        if !begins_with(&line, &prefix) {
            return Ok(Some(acc));
        }
        let ghost rest = directive_lines(src@, end as int + 1);
        let ghost lines = directive_lines(src@, pos as int);
        let ghost before = acc;
        assert(lines == seq![line@] + rest);
        assert(lines[0] == line@);
        assert(lines.drop_first() =~= rest);
        match read_line_chars(&line, prefix.len()) {
            LineOutcome::Directive(d) => {
                acc.options.apply(d);
            },
            LineOutcome::Warning(w) => {
                acc.warnings.push(w);
                proof {
                    lemma_push_deep_view(before.warnings, acc.warnings, w);
                }
            },
            LineOutcome::Corrupt(e) => {
                return Err(e);
            },
        }
        assert(read_lines(lines, before@) == read_lines(rest, acc@));
        if end >= src.len() {
            pos = src.len();
        } else {
            pos = end + 1;
        }
    }
    Ok(Some(acc))
}

/// The options that a test program runs under: those of its header comment,
/// and none where it has no header comment.
pub fn options_of_source(source_code: &str) -> (r: Result<Extraction, DirectiveError>)
    ensures
        source_options_view(r) == source_options(source_code@),
{
    match extract_args_from_source_file(source_code) {
        Ok(Some(e)) => Ok(e),
        Ok(None) => {
            let e = Extraction { options: WasiOptions::default(), warnings: Vec::new() };
            assert(e.warnings.deep_view() =~= Seq::empty());
            Ok(e)
        },
        Err(e) => Err(e),
    }
}

/// A source that does not begin with the marker has no header comment, and
/// runs under the options in which every list is empty, with no warning.
pub proof fn law_no_marker_gives_defaults(source: Seq<char>)
    requires
        !marker().is_prefix_of(source),
    ensures
        extraction(source) == Ok::<Option<ExtractionView>, DirectiveErrorView>(None),
        source_options(source) == Ok::<ExtractionView, DirectiveErrorView>(ExtractionView::empty()),
        ExtractionView::empty().options.is_empty(),
{
}

/// A payload made of two parts that do not hold the separator, with the
/// separator between them, splits into exactly those parts.
pub proof fn law_split_pair_well_formed(a: Seq<char>, b: Seq<char>, sep: char)
    requires
        !a.contains(sep),
        !b.contains(sep),
    ensures
        split_pair(a + seq![sep] + b, sep) == Some((a, b)),
{
    let s = a + seq![sep] + b;
    let k = a.len() as int;
    assert forall|j: int| 0 <= j < s.len() && j != k implies s[j] != sep by {
        if j < k {
            assert(a.contains(a[j]));
        } else {
            assert(b.contains(b[j - k - 1]));
        }
    }
    assert(sole_separator(s, sep, k));
    let chosen = choose|i: int| sole_separator(s, sep, i);
    assert(chosen == k);
    assert(s.subrange(0, k) =~= a);
    assert(s.subrange(k + 1, s.len() as int) =~= b);
}

/// A payload that does not hold the separator, or holds it twice or more,
/// does not split.
pub proof fn law_split_pair_malformed(s: Seq<char>, sep: char)
    requires
        !s.contains(sep) || exists|i: int, j: int|
            0 <= i < j < s.len() && s[i] == sep && s[j] == sep,
    ensures
        split_pair(s, sep) is None,
{
    assert forall|k: int| !sole_separator(s, sep, k) by {
        if sole_separator(s, sep, k) {
            assert(s.contains(s[k]));
            let (i, j) = choose|i: int, j: int|
                0 <= i < j < s.len() && s[i] == sep && s[j] == sep;
            assert(i != k || j != k);
        }
    }
}

/// Characters that are not white space, between white space or the ends of
/// `s`, are one token.
pub proof fn lemma_token_run(s: Seq<char>, from: int, to: int)
    requires
        0 <= from <= to <= s.len(),
        forall|i: int| from <= i < to ==> !white_space(s[i]),
        to == s.len() || white_space(s[to]),
    ensures
        token_len(s, from) == to - from,
    decreases to - from,
{
    if from < to {
        lemma_token_run(s, from + 1, to);
    }
}

/// The text of a directive line: the comment prefix, the name, a colon, a
/// space and the payload.
pub open spec fn directive_line(name: Seq<char>, payload: Seq<char>) -> Seq<char> {
    comment_prefix() + name + seq![':', ' '] + payload
}

/// A directive line whose name and payload hold no white space, the payload
/// not empty, amounts to what the named directive makes of the payload.
pub proof fn law_directive_line(name: Seq<char>, payload: Seq<char>)
    requires
        forall|i: int| 0 <= i < name.len() ==> !white_space(name[i]),
        forall|i: int| 0 <= i < payload.len() ==> !white_space(payload[i]),
        payload.len() > 0,
    ensures
        read_line(directive_line(name, payload)) == directive_of(name, payload),
{
    reveal_strlit("// ");
    let line = directive_line(name, payload);
    let n = name.len() as int;
    let end = line.len() as int;
    assert(comment_prefix().len() == 3);
    assert(end == n + 5 + payload.len());
    assert forall|i: int| 3 <= i < n + 4 implies !white_space(line[i]) by {
        if i < n + 3 {
            assert(line[i] == name[i - 3]);
        } else {
            assert(line[i] == ':');
        }
    }
    assert(line[n + 4] == ' ');
    assert forall|i: int| n + 5 <= i < end implies !white_space(line[i]) by {
        assert(line[i] == payload[i - n - 5]);
    }
    lemma_token_run(line, 3, n + 4);
    lemma_token_run(line, n + 5, end);
    let tokens = tokens_from(line, 3);
    assert(tokens_from(line, end).len() == 0);
    assert(tokens_from(line, n + 5) == seq![line.subrange(n + 5, end)] + tokens_from(line, end));
    assert(tokens_from(line, n + 4) == tokens_from(line, n + 5));
    assert(tokens == seq![line.subrange(3, n + 4)] + tokens_from(line, n + 4));
    assert(tokens.len() == 2);
    assert(tokens[0] =~= name.push(':'));
    assert(tokens[0].drop_last() =~= name);
    assert(tokens[1] =~= payload);
}

/// A `mapdir` line whose payload is an alias, one colon and a directory
/// sets exactly that pair; so does an `env` line with a name, one equals
/// sign and a value.
pub proof fn law_pair_well_formed(first: Seq<char>, second: Seq<char>)
    requires
        forall|i: int| 0 <= i < first.len() ==> !white_space(first[i]),
        forall|i: int| 0 <= i < second.len() ==> !white_space(second[i]),
    ensures
        !first.contains(':') && !second.contains(':') ==> read_line(
            directive_line("mapdir"@, first + seq![':'] + second),
        ) == LineOutcomeView::Directive(DirectiveView::MapDir(first, second)),
        !first.contains('=') && !second.contains('=') ==> read_line(
            directive_line("env"@, first + seq!['='] + second),
        ) == LineOutcomeView::Directive(DirectiveView::Env(first, second)),
{
    reveal_strlit("mapdir");
    reveal_strlit("env");
    assert("env"@[0] != "mapdir"@[0]);
    if !first.contains(':') && !second.contains(':') {
        law_split_pair_well_formed(first, second, ':');
        law_directive_line("mapdir"@, first + seq![':'] + second);
    }
    if !first.contains('=') && !second.contains('=') {
        law_split_pair_well_formed(first, second, '=');
        law_directive_line("env"@, first + seq!['='] + second);
    }
}

/// A `mapdir` line whose payload holds no colon, or two or more, is dropped
/// with a warning that holds the payload; so is an `env` line whose payload
/// holds no equals sign, or two or more.
pub proof fn law_pair_malformed(payload: Seq<char>)
    requires
        payload.len() > 0,
        forall|i: int| 0 <= i < payload.len() ==> !white_space(payload[i]),
    ensures
        !payload.contains(':') || (exists|i: int, j: int|
            0 <= i < j < payload.len() && payload[i] == ':' && payload[j] == ':') ==> read_line(
            directive_line("mapdir"@, payload),
        ) == LineOutcomeView::Warning(DirectiveWarningView::MalformedMapDir(payload)),
        !payload.contains('=') || (exists|i: int, j: int|
            0 <= i < j < payload.len() && payload[i] == '=' && payload[j] == '=') ==> read_line(
            directive_line("env"@, payload),
        ) == LineOutcomeView::Warning(DirectiveWarningView::MalformedEnv(payload)),
{
    reveal_strlit("mapdir");
    reveal_strlit("env");
    assert("env"@[0] != "mapdir"@[0]);
    law_directive_line("mapdir"@, payload);
    law_directive_line("env"@, payload);
    if !payload.contains(':') || (exists|i: int, j: int|
        0 <= i < j < payload.len() && payload[i] == ':' && payload[j] == ':') {
        law_split_pair_malformed(payload, ':');
    }
    if !payload.contains('=') || (exists|i: int, j: int|
        0 <= i < j < payload.len() && payload[i] == '=' && payload[j] == '=') {
        law_split_pair_malformed(payload, '=');
    }
}

/// The comment prefix is the first token of a line that begins with it, and
/// the tokens of a directive are those that follow.
pub proof fn law_tokens_follow_prefix(line: Seq<char>)
    requires
        comment_prefix().is_prefix_of(line),
    ensures
        tokens_from(line, 0) == seq![seq!['/', '/']] + tokens_from(
            line,
            comment_prefix().len() as int,
        ),
{
    reveal_strlit("// ");
    let prefix = comment_prefix();
    assert(forall|i: int| 0 <= i < 3 ==> line[i] == #[trigger] line.subrange(0, 3)[i]);
    assert(line[0] == prefix[0] && line[1] == prefix[1] && line[2] == prefix[2]);
    lemma_token_run(line, 0, 2);
    assert(line.subrange(0, 2) =~= seq!['/', '/']);
    assert(tokens_from(line, 2) == tokens_from(line, 3));
}

/// A line that is dropped with a warning leaves the options as they were,
/// and adds its warning after those already given.
pub proof fn law_warning_keeps_options(line: Seq<char>, acc: ExtractionView)
    requires
        read_line(line) is Warning,
    ensures
        read_lines(seq![line], acc) == Ok::<ExtractionView, DirectiveErrorView>(
            ExtractionView {
                options: acc.options,
                warnings: acc.warnings.push(read_line(line)->Warning_0),
            },
        ),
{
    let lines = seq![line];
    assert(lines.drop_first().len() == 0);
    assert(lines[0] == line);
    let next = ExtractionView { warnings: acc.warnings.push(read_line(line)->Warning_0), ..acc };
    assert(read_lines(lines.drop_first(), next) == Ok::<ExtractionView, DirectiveErrorView>(next));
}

} // verus!
