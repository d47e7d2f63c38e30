use wasi_test_generator::options::WasiOptions;
use wasi_test_generator::wast::WasiTest;

fn s(text: &str) -> String {
    text.to_string()
}

fn bare(name: &str, result: i64) -> WasiTest {
    WasiTest {
        wasm_prog_name: s(name),
        stdout: String::new(),
        stderr: String::new(),
        result,
        options: WasiOptions::default(),
    }
}

#[test]
fn bare_test_has_only_the_exit_code() {
    assert_eq!(
        bare("hello.wasm", 7).into_wasi_wast(),
        "(wasi_test \"hello.wasm\"\n  (assert_return (i64.const 7))\n)"
    );
    assert_eq!(
        bare("", 0).into_wasi_wast(),
        "(wasi_test \"\"\n  (assert_return (i64.const 0))\n)"
    );
}

#[test]
fn default_test_is_bare() {
    assert_eq!(
        WasiTest::default().into_wasi_wast(),
        "(wasi_test \"\"\n  (assert_return (i64.const 0))\n)"
    );
}

#[test]
fn exit_code_is_written_in_decimal() {
    assert_eq!(
        bare("a.wasm", -3).into_wasi_wast(),
        "(wasi_test \"a.wasm\"\n  (assert_return (i64.const -3))\n)"
    );
    assert_eq!(
        bare("a.wasm", i64::MIN).into_wasi_wast(),
        "(wasi_test \"a.wasm\"\n  (assert_return (i64.const -9223372036854775808))\n)"
    );
    assert_eq!(
        bare("a.wasm", i64::MAX).into_wasi_wast(),
        "(wasi_test \"a.wasm\"\n  (assert_return (i64.const 9223372036854775807))\n)"
    );
}

#[test]
fn hello_on_stdout() {
    let mut test = bare("hello.wasm", 0);
    test.stdout = s("hello\n");
    let text = test.into_wasi_wast();
    assert_eq!(
        text,
        "(wasi_test \"hello.wasm\"\n  (assert_return (i64.const 0))\n  (assert_stdout \"hello\\n\")\n)"
    );
    assert!(text.contains("assert_return (i64.const 0)"));
    assert!(text.contains("assert_stdout \"hello\\n\""));
    assert!(!text.contains("assert_stderr"));
    for keyword in ["envs", "args", "preopens", "map_dirs", "temp_dirs"] {
        assert!(!text.contains(keyword));
    }
}

#[test]
fn stderr_alone() {
    let mut test = bare("fail.wasm", 1);
    test.stderr = s("oops");
    assert_eq!(
        test.into_wasi_wast(),
        "(wasi_test \"fail.wasm\"\n  (assert_return (i64.const 1))\n  (assert_stderr \"oops\")\n)"
    );
}

#[test]
fn outputs_are_escaped() {
    let mut test = bare("q.wasm", 0);
    test.stdout = s("say \"hi\"\tnow\\\r\n");
    test.stderr = s("nul\0 bell\u{7} caf\u{e9}");
    let text = test.into_wasi_wast();
    assert_eq!(
        text,
        "(wasi_test \"q.wasm\"\n  (assert_return (i64.const 0))\n  (assert_stdout \"say \\\"hi\\\"\\tnow\\\\\\r\\n\")\n  (assert_stderr \"nul\\0 bell\\u{7} caf\u{e9}\")\n)"
    );
    assert_eq!(text.lines().count(), 5);
}

#[test]
fn every_section_in_the_fixed_order() {
    let test = WasiTest {
        wasm_prog_name: s("all.wasm"),
        stdout: s("out"),
        stderr: s("err"),
        result: 42,
        options: WasiOptions {
            mapdir: vec![(s("out"), s("/tmp/out")), (s("in"), s("/tmp/in"))],
            env: vec![(s("DOG"), s("1")), (s("CAT"), s("2"))],
            args: vec![s("--flag"), s("value")],
            dir: vec![s("."), s("test_fs")],
            tempdir: vec![s("temp"), s("scratch")],
        },
    };
    assert_eq!(
        test.into_wasi_wast(),
        "(wasi_test \"all.wasm\"\n  (envs \"DOG=1\" \"CAT=2\")\n  (args \"--flag\" \"value\")\n  (preopens \".\" \"test_fs\")\n  (map_dirs \"out:/tmp/out\" \"in:/tmp/in\")\n  (temp_dirs \"temp\" \"scratch\")\n  (assert_return (i64.const 42))\n  (assert_stdout \"out\")\n  (assert_stderr \"err\")\n)"
    );
}

#[test]
fn each_section_alone() {
    let mut test = bare("one.wasm", 0);
    test.options.env = vec![(s("A"), s("b"))];
    assert_eq!(
        test.into_wasi_wast(),
        "(wasi_test \"one.wasm\"\n  (envs \"A=b\")\n  (assert_return (i64.const 0))\n)"
    );
    let mut test = bare("one.wasm", 0);
    test.options.args = vec![s("x")];
    assert_eq!(
        test.into_wasi_wast(),
        "(wasi_test \"one.wasm\"\n  (args \"x\")\n  (assert_return (i64.const 0))\n)"
    );
    let mut test = bare("one.wasm", 0);
    test.options.dir = vec![s("d")];
    assert_eq!(
        test.into_wasi_wast(),
        "(wasi_test \"one.wasm\"\n  (preopens \"d\")\n  (assert_return (i64.const 0))\n)"
    );
    let mut test = bare("one.wasm", 0);
    test.options.mapdir = vec![(s("out"), s("/tmp/out"))];
    assert_eq!(
        test.into_wasi_wast(),
        "(wasi_test \"one.wasm\"\n  (map_dirs \"out:/tmp/out\")\n  (assert_return (i64.const 0))\n)"
    );
    let mut test = bare("one.wasm", 0);
    test.options.tempdir = vec![s("t")];
    assert_eq!(
        test.into_wasi_wast(),
        "(wasi_test \"one.wasm\"\n  (temp_dirs \"t\")\n  (assert_return (i64.const 0))\n)"
    );
}

#[test]
fn option_values_are_quoted_as_they_stand() {
    let mut test = bare("raw.wasm", 0);
    test.options.args = vec![s("a b"), s(""), s("q\"q")];
    assert_eq!(
        test.into_wasi_wast(),
        "(wasi_test \"raw.wasm\"\n  (args \"a b\" \"\" \"q\"q\")\n  (assert_return (i64.const 0))\n)"
    );
}

#[test]
fn outputs_are_written_as_debug_writes_them() {
    let mut test = bare("d.wasm", 0);
    test.stdout = s("e\u{301}\u{200b}");
    test.stderr = s("\u{feff}x");
    assert_eq!(
        test.into_wasi_wast(),
        "(wasi_test \"d.wasm\"\n  (assert_return (i64.const 0))\n  (assert_stdout \"e\\u{301}\\u{200b}\")\n  (assert_stderr \"\\u{feff}x\")\n)"
    );
}
