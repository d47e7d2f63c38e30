//! The assertion file that is written beside a compiled module.
//!
//! ```text
//! (wasi_test "<module>"
//!   (envs "NAME=value" ...)
//!   (args "value" ...)
//!   (preopens "path" ...)
//!   (map_dirs "alias:real" ...)
//!   (temp_dirs "alias" ...)
//!   (assert_return (i64.const <exit code>))
//!   (assert_stdout "<escaped text>")
//!   (assert_stderr "<escaped text>")
//! )
//! ```
//!
//! Only `assert_return` is always there: a list without items and an output
//! without text leave no line.

use crate::escape::{
    coded, law_quoted_form_round_trip, law_quoted_is_one_line, quote, quoted_form, stands_for,
};
use crate::options::{lemma_push_deep_view, WasiOptions, WasiOptionsView};
use crate::text::{decimal, decimal_of};
use vstd::prelude::*;

verus! {

/// What an assertion file states of one module.
#[derive(Debug, Clone, PartialEq, Eq)]
pub struct WasiTest {
    /// The name of the wasm module to run.
    pub wasm_prog_name: String,
    /// The output expected on stdout.
    pub stdout: String,
    /// The output expected on stderr.
    pub stderr: String,
    /// The exit code expected.
    pub result: i64,
    /// The options to run the module under.
    pub options: WasiOptions,
}

/// A `WasiTest`, as sequences of characters.
pub struct WasiTestView {
    pub wasm_prog_name: Seq<char>,
    pub stdout: Seq<char>,
    pub stderr: Seq<char>,
    pub result: i64,
    pub options: WasiOptionsView,
}

impl View for WasiTest {
    type V = WasiTestView;

    open spec fn view(&self) -> WasiTestView {
        WasiTestView {
            wasm_prog_name: self.wasm_prog_name@,
            stdout: self.stdout@,
            stderr: self.stderr@,
            result: self.result,
            options: self.options@,
        }
    }
}

impl Default for WasiTest {
    fn default() -> (r: Self)
        ensures
            r@.wasm_prog_name.len() == 0,
            r@.stdout.len() == 0,
            r@.stderr.len() == 0,
            r@.result == 0,
            r@.options == WasiOptionsView::empty(),
    {
        WasiTest {
            wasm_prog_name: String::new(),
            stdout: String::new(),
            stderr: String::new(),
            result: 0,
            options: WasiOptions::default(),
        }
    }
}

/// `s` between double quotes, as it stands.
pub open spec fn quoted(s: Seq<char>) -> Seq<char> {
    seq!['"'] + s + seq!['"']
}

/// The items, each between double quotes, with one space between two.
pub open spec fn quoted_list(items: Seq<Seq<char>>) -> Seq<char>
    decreases items.len(),
{
    if items.len() == 0 {
        Seq::empty()
    } else if items.len() == 1 {
        quoted(items[0])
    } else {
        quoted_list(items.drop_last()) + seq![' '] + quoted(items.last())
    }
}

/// Each pair as one item: its first part, `sep`, its second part.
pub open spec fn joined_pairs(pairs: Seq<(Seq<char>, Seq<char>)>, sep: char) -> Seq<Seq<char>> {
    Seq::new(pairs.len(), |i: int| pairs[i].0 + seq![sep] + pairs[i].1)
}

/// The line of a list: nothing where the list is empty, else a line feed,
/// two spaces, and in round brackets the keyword and the quoted items.
pub open spec fn section(keyword: Seq<char>, items: Seq<Seq<char>>) -> Seq<char> {
    if items.len() == 0 {
        Seq::empty()
    } else {
        "\n  ("@ + keyword + seq![' '] + quoted_list(items) + seq![')']
    }
}

/// The line of an output: nothing where `text` is empty, else a line feed,
/// two spaces, and in round brackets the keyword and `text` as one quoted
/// string, escaped.
pub open spec fn text_assertion(keyword: Seq<char>, text: Seq<char>) -> Seq<char> {
    if text.len() == 0 {
        Seq::empty()
    } else {
        "\n  ("@ + keyword + seq![' '] + quoted_form(text) + seq![')']
    }
}

/// The assertion file of `t`.
pub open spec fn wast_text(t: WasiTestView) -> Seq<char> {
    "(wasi_test "@ + quoted(t.wasm_prog_name) + section("envs"@, joined_pairs(t.options.env, '='))
        + section("args"@, t.options.args) + section("preopens"@, t.options.dir) + section(
        "map_dirs"@,
        joined_pairs(t.options.mapdir, ':'),
    ) + section("temp_dirs"@, t.options.tempdir) + "\n  (assert_return (i64.const "@ + decimal(
        t.result as int,
    ) + "))"@ + text_assertion("assert_stdout"@, t.stdout) + text_assertion(
        "assert_stderr"@,
        t.stderr,
    ) + "\n)"@
}

/// Each pair as one string: its first part, `sep`, its second part.
fn join_pairs(pairs: &Vec<(String, String)>, sep: char) -> (items: Vec<String>)
    ensures
        items.deep_view() == joined_pairs(pairs.deep_view(), sep),
{
    let mut items: Vec<String> = Vec::new();
    let mut i: usize = 0;
    assert(items.deep_view() =~= joined_pairs(pairs.deep_view().take(0), sep));
    while i < pairs.len()
        invariant
            i <= pairs.len(),
            items.deep_view() == joined_pairs(pairs.deep_view().take(i as int), sep),
        decreases pairs.len() - i,
    {
        let mut item = pairs[i].0.clone();
        item.push(sep);
        item.append(pairs[i].1.as_str());
        let ghost before = items;
        items.push(item);
        proof {
            lemma_push_deep_view(before, items, item);
            let pair = pairs.deep_view()[i as int];
            assert(pair == (pairs[i as int].0@, pairs[i as int].1@));
            assert(item@ =~= pair.0 + seq![sep] + pair.1);
            assert(pairs.deep_view().take(i as int + 1)[i as int] == pair);
            assert(items.deep_view() =~= joined_pairs(
                pairs.deep_view().take(i as int + 1),
                sep,
            ));
        }
        i += 1;
    }
    assert(pairs.deep_view().take(pairs.len() as int) =~= pairs.deep_view());
    items
}

/// Appends the line of a list to `out`.
fn push_section(out: &mut String, keyword: &str, items: &Vec<String>)
    ensures
        final(out)@ == old(out)@ + section(keyword@, items.deep_view()),
{
    if items.len() == 0 {
        assert(out@ =~= out@ + Seq::<char>::empty());
        return ;
    }
    let ghost all = items.deep_view();
    out.append("\n  (");
    out.append(keyword);
    out.push(' ');
    let ghost head = out@;
    let mut i: usize = 0;
    assert(all.take(0).len() == 0);
    assert(out@ =~= head + quoted_list(all.take(0)));
    while i < items.len()
        invariant
            i <= items.len(),
            all == items.deep_view(),
            out@ == head + quoted_list(all.take(i as int)),
        decreases items.len() - i,
    {
        let ghost sofar = all.take(i as int);
        let ghost next = all.take(i as int + 1);
        if i > 0 {
            out.push(' ');
        }
        out.push('"');
        out.append(items[i].as_str());
        out.push('"');
        proof {
            assert(next.drop_last() =~= sofar);
            assert(next.last() == items[i as int]@);
            assert(next[0] == all[0]);
            assert(out@ =~= head + quoted_list(next));
        }
        i += 1;
    }
    out.push(')');
    proof {
        assert(all.take(items.len() as int) =~= all);
        assert(out@ =~= old(out)@ + section(keyword@, all));
    }
}

/// Appends the line of an output to `out`.
fn push_text_assertion(out: &mut String, keyword: &str, text: &str)
    ensures
        final(out)@ == old(out)@ + text_assertion(keyword@, text@),
{
    if text.unicode_len() == 0 {
        assert(out@ =~= out@ + Seq::<char>::empty());
        return ;
    }
    out.append("\n  (");
    out.append(keyword);
    out.push(' ');
    out.append(quote(text).as_str());
    out.push(')');
    assert(out@ =~= old(out)@ + text_assertion(keyword@, text@));
}

impl WasiTest {
    /// The text of the assertion file.
    pub fn into_wasi_wast(&self) -> (out: String)
        ensures
            out@ == wast_text(self@),
    {
        let mut out = String::new();
        out.append("(wasi_test ");
        out.push('"');
        out.append(self.wasm_prog_name.as_str());
        out.push('"');
        assert(out@ =~= "(wasi_test "@ + quoted(self@.wasm_prog_name));
        push_section(&mut out, "envs", &join_pairs(&self.options.env, '='));
        push_section(&mut out, "args", &self.options.args);
        push_section(&mut out, "preopens", &self.options.dir);
        push_section(&mut out, "map_dirs", &join_pairs(&self.options.mapdir, ':'));
        push_section(&mut out, "temp_dirs", &self.options.tempdir);
        out.append("\n  (assert_return (i64.const ");
        out.append(decimal_of(self.result).as_str());
        out.append("))");
        push_text_assertion(&mut out, "assert_stdout", self.stdout.as_str());
        push_text_assertion(&mut out, "assert_stderr", self.stderr.as_str());
        out.append("\n)");
        out
    }
}

/// With no option set and no output, the assertion file is the opening
/// line with the module's name, the line of the exit code and the closing
/// bracket.
pub proof fn law_bare_test(t: WasiTestView)
    requires
        t.options.is_empty(),
        t.stdout.len() == 0,
        t.stderr.len() == 0,
    ensures
        wast_text(t) == "(wasi_test \""@ + t.wasm_prog_name
            + "\"\n  (assert_return (i64.const "@ + decimal(t.result as int) + "))\n)"@,
{
    reveal_strlit("(wasi_test ");
    reveal_strlit("(wasi_test \"");
    reveal_strlit("\n  (assert_return (i64.const ");
    reveal_strlit("\"\n  (assert_return (i64.const ");
    reveal_strlit("))");
    reveal_strlit("\n)");
    reveal_strlit("))\n)");
    assert(joined_pairs(t.options.env, '=').len() == 0);
    assert(joined_pairs(t.options.mapdir, ':').len() == 0);
    assert(wast_text(t) =~= "(wasi_test \""@ + t.wasm_prog_name
        + "\"\n  (assert_return (i64.const "@ + decimal(t.result as int) + "))\n)"@);
}

/// The line of a list is there exactly when the list has an item. It then
/// starts on a line of its own with the opening bracket and the keyword, and
/// ends with the closing bracket.
pub proof fn law_section_presence(keyword: Seq<char>, items: Seq<Seq<char>>)
    ensures
        section(keyword, items).len() == 0 <==> items.len() == 0,
        items.len() > 0 ==> ("\n  ("@ + keyword + seq![' ']).is_prefix_of(section(keyword, items)),
        items.len() > 0 ==> section(keyword, items).last() == ')',
{
    if items.len() > 0 {
        let head = "\n  ("@ + keyword + seq![' '];
        let whole = section(keyword, items);
        assert(whole =~= head + (quoted_list(items) + seq![')']));
        assert(whole.subrange(0, head.len() as int) =~= head);
    }
}

/// The line of an output is there exactly when the output has text. It then
/// starts on a line of its own with the opening bracket and the keyword,
/// holds the text as one quoted string, and ends with the closing bracket.
pub proof fn law_text_assertion_presence(keyword: Seq<char>, text: Seq<char>)
    ensures
        text_assertion(keyword, text).len() == 0 <==> text.len() == 0,
        text.len() > 0 ==> text_assertion(keyword, text) == "\n  ("@ + keyword + seq![' ']
            + quoted_form(text) + seq![')'],
{
}

/// What stands in the line of an output is a quoted string that reads back
/// as the output, and it is on one line: it holds no control character, and
/// no white space but the space.
pub proof fn law_output_reads_back(text: Seq<char>)
    ensures
        stands_for(quoted_form(text), text),
        forall|i: int|
            0 <= i < quoted_form(text).len() ==> !coded(#[trigger] quoted_form(text)[i]),
{
    law_quoted_form_round_trip(text, text);
    assert forall|i: int| 0 <= i < quoted_form(text).len() implies !coded(
        #[trigger] quoted_form(text)[i],
    ) by {
        law_quoted_is_one_line(quoted_form(text), text, i);
    }
}

/// The items of a list stand in its line in their order: the line of a list
/// with one more item is the line of the list, without its closing bracket,
/// then a space where the list was not empty, the quoted item and the
/// closing bracket.
pub proof fn law_section_grows(keyword: Seq<char>, items: Seq<Seq<char>>, item: Seq<char>)
    ensures
        items.len() == 0 ==> section(keyword, items.push(item)) == "\n  ("@ + keyword + seq![' ']
            + quoted(item) + seq![')'],
        items.len() > 0 ==> section(keyword, items.push(item)) == section(
            keyword,
            items,
        ).drop_last() + seq![' '] + quoted(item) + seq![')'],
{
    let more = items.push(item);
    assert(more.drop_last() =~= items);
    assert(more.last() == item);
    if items.len() == 0 {
        assert(more[0] == item);
    } else {
        assert(section(keyword, more) =~= section(keyword, items).drop_last() + seq![' ']
            + quoted(item) + seq![')']);
    }
}

/// The assertion file is made of its parts in one fixed order: the opening
/// line, the lines of the environment, the arguments, the pre-opened
/// directories, the mapped directories and the temporary directories, the
/// line of the exit code, the lines of the two outputs, and the closing
/// bracket. The line of a list or of an output is absent exactly when the
/// list or the output is empty; the line of the exit code is always there.
pub proof fn law_sections_in_order(t: WasiTestView)
    ensures
        ({
            let envs = section("envs"@, joined_pairs(t.options.env, '='));
            let args = section("args"@, t.options.args);
            let preopens = section("preopens"@, t.options.dir);
            let map_dirs = section("map_dirs"@, joined_pairs(t.options.mapdir, ':'));
            let temp_dirs = section("temp_dirs"@, t.options.tempdir);
            let exit_code = "\n  (assert_return (i64.const "@ + decimal(t.result as int) + "))"@;
            let stdout = text_assertion("assert_stdout"@, t.stdout);
            let stderr = text_assertion("assert_stderr"@, t.stderr);
            &&& wast_text(t) == "(wasi_test "@ + quoted(t.wasm_prog_name) + envs + args + preopens
                + map_dirs + temp_dirs + exit_code + stdout + stderr + "\n)"@
            &&& envs.len() == 0 <==> t.options.env.len() == 0
            &&& args.len() == 0 <==> t.options.args.len() == 0
            &&& preopens.len() == 0 <==> t.options.dir.len() == 0
            &&& map_dirs.len() == 0 <==> t.options.mapdir.len() == 0
            &&& temp_dirs.len() == 0 <==> t.options.tempdir.len() == 0
            &&& exit_code.len() > 0
            &&& stdout.len() == 0 <==> t.stdout.len() == 0
            &&& stderr.len() == 0 <==> t.stderr.len() == 0
        }),
{
    reveal_strlit("))");
    law_section_presence("envs"@, joined_pairs(t.options.env, '='));
    law_section_presence("args"@, t.options.args);
    law_section_presence("preopens"@, t.options.dir);
    law_section_presence("map_dirs"@, joined_pairs(t.options.mapdir, ':'));
    law_section_presence("temp_dirs"@, t.options.tempdir);
}

} // verus!
