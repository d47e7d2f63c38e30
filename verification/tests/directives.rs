use wasi_test_generator::directives::{
    extract_args_from_source_file, options_of_source, parse_directive_line, DirectiveError,
    DirectiveWarning, Extraction, LineOutcome,
};
use wasi_test_generator::options::{Directive, WasiOptions};

fn s(text: &str) -> String {
    text.to_string()
}

fn extracted(source: &str) -> Extraction {
    extract_args_from_source_file(source)
        .expect("the header comment is not corrupt")
        .expect("the source begins with the marker")
}

#[test]
fn source_without_marker_has_no_header() {
    assert_eq!(extract_args_from_source_file("fn main() {}\n"), Ok(None));
    assert_eq!(extract_args_from_source_file(""), Ok(None));
    assert_eq!(extract_args_from_source_file("// WASI\n// arg: x\n"), Ok(None));
    assert_eq!(extract_args_from_source_file(" // WASI:\n// arg: x\n"), Ok(None));
    assert_eq!(extract_args_from_source_file("//WASI:\n// arg: x\n"), Ok(None));
}

#[test]
fn source_without_marker_runs_under_defaults() {
    let parsed = options_of_source("// arg: ignored\nfn main() {}\n").unwrap();
    assert_eq!(parsed.options, WasiOptions::default());
    assert!(parsed.warnings.is_empty());
    let again = options_of_source("// arg: ignored\nfn main() {}\n").unwrap();
    assert_eq!(parsed, again);
}

#[test]
fn default_options_are_all_empty() {
    let options = WasiOptions::default();
    assert!(options.mapdir.is_empty());
    assert!(options.env.is_empty());
    assert!(options.args.is_empty());
    assert!(options.dir.is_empty());
    assert!(options.tempdir.is_empty());
}

#[test]
fn marker_alone_gives_empty_options() {
    let parsed = extracted("// WASI:");
    assert_eq!(parsed.options, WasiOptions::default());
    assert!(parsed.warnings.is_empty());
    let parsed = extracted("// WASI:\n");
    assert_eq!(parsed.options, WasiOptions::default());
    let parsed = extracted("// WASI:\n\nfn main() {}\n");
    assert_eq!(parsed.options, WasiOptions::default());
}

#[test]
fn marker_is_a_prefix_of_the_first_line() {
    let parsed = extracted("// WASI: options\n// arg: one\n");
    assert_eq!(parsed.options.args, vec![s("one")]);
    let parsed = extracted("// WASI:// arg: zero\n// arg: one\n");
    assert_eq!(parsed.options.args, vec![s("one")]);
}

#[test]
fn mapdir_and_arg_header() {
    let source = "// WASI:\n// mapdir: out:/tmp/out\n// arg: --flag\n\nfn main() {}\n";
    let parsed = extracted(source);
    assert_eq!(parsed.options.mapdir, vec![(s("out"), s("/tmp/out"))]);
    assert_eq!(parsed.options.args, vec![s("--flag")]);
    assert!(parsed.options.env.is_empty());
    assert!(parsed.options.dir.is_empty());
    assert!(parsed.options.tempdir.is_empty());
    assert!(parsed.warnings.is_empty());
    assert_eq!(options_of_source(source), Ok(parsed));
}

#[test]
fn every_directive_fills_its_own_list_in_order() {
    let source = "// WASI:\n\
                  // tempdir: temp\n\
                  // env: DOG=1\n\
                  // dir: test_fs\n\
                  // arg: first\n\
                  // mapdir: a:b\n\
                  // env: CAT=2\n\
                  // arg: second\n\
                  // dir: other\n\
                  // mapdir: c:d\n\
                  // tempdir: more\n\
                  fn main() {}\n";
    let parsed = extracted(source);
    assert_eq!(parsed.options.mapdir, vec![(s("a"), s("b")), (s("c"), s("d"))]);
    assert_eq!(parsed.options.env, vec![(s("DOG"), s("1")), (s("CAT"), s("2"))]);
    assert_eq!(parsed.options.args, vec![s("first"), s("second")]);
    assert_eq!(parsed.options.dir, vec![s("test_fs"), s("other")]);
    assert_eq!(parsed.options.tempdir, vec![s("temp"), s("more")]);
    assert!(parsed.warnings.is_empty());
}

#[test]
fn directives_end_at_the_first_line_that_is_no_comment() {
    let source = "// WASI:\n// arg: one\nfn main() {}\n// arg: two\n";
    assert_eq!(extracted(source).options.args, vec![s("one")]);
    let source = "// WASI:\n// arg: one\n\n// arg: two\n";
    assert_eq!(extracted(source).options.args, vec![s("one")]);
    let source = "// WASI:\n// arg: one\n//arg: two\n// arg: three\n";
    assert_eq!(extracted(source).options.args, vec![s("one")]);
    let source = "// WASI:\n//\n// arg: two\n";
    assert!(extracted(source).options.args.is_empty());
    let source = "// WASI:\n // arg: two\n";
    assert!(extracted(source).options.args.is_empty());
}

#[test]
fn corrupt_line_after_the_block_is_not_read() {
    let source = "// WASI:\n// arg: one\nfn main() {}\n// nonsense\n";
    assert_eq!(extracted(source).options.args, vec![s("one")]);
}

#[test]
fn last_line_needs_no_line_feed() {
    assert_eq!(extracted("// WASI:\n// arg: one").options.args, vec![s("one")]);
}

#[test]
fn carriage_returns_do_not_reach_the_tokens() {
    let source = "// WASI:\r\n// mapdir: out:/tmp/out\r\n// arg: --flag\r\n\r\nfn main() {}\r\n";
    let parsed = extracted(source);
    assert_eq!(parsed.options.mapdir, vec![(s("out"), s("/tmp/out"))]);
    assert_eq!(parsed.options.args, vec![s("--flag")]);
    assert!(parsed.warnings.is_empty());
    assert_eq!(extracted("// WASI:\r\n// arg: one\r").options.args, vec![s("one")]);
}

#[test]
fn tokens_are_cut_at_any_white_space() {
    let parsed = extracted("// WASI:\n// \t arg:\t\t--flag   \n//  dir:\u{3000}here\u{a0}\n");
    assert_eq!(parsed.options.args, vec![s("--flag")]);
    assert_eq!(parsed.options.dir, vec![s("here")]);
}

#[test]
fn tokens_after_the_payload_are_not_read() {
    let parsed = extracted("// WASI:\n// arg: one two three\n// env: A=b C=d\n");
    assert_eq!(parsed.options.args, vec![s("one")]);
    assert_eq!(parsed.options.env, vec![(s("A"), s("b"))]);
    assert!(parsed.warnings.is_empty());
}

#[test]
fn well_formed_mapdir_gives_the_pair() {
    assert_eq!(
        parse_directive_line("// mapdir: a:b"),
        LineOutcome::Directive(Directive::MapDir(s("a"), s("b")))
    );
    assert_eq!(
        parse_directive_line("// mapdir: .:/"),
        LineOutcome::Directive(Directive::MapDir(s("."), s("/")))
    );
    assert_eq!(
        parse_directive_line("// mapdir: :b"),
        LineOutcome::Directive(Directive::MapDir(s(""), s("b")))
    );
    assert_eq!(
        parse_directive_line("// mapdir: a:"),
        LineOutcome::Directive(Directive::MapDir(s("a"), s("")))
    );
    assert_eq!(
        parse_directive_line("// mapdir: :"),
        LineOutcome::Directive(Directive::MapDir(s(""), s("")))
    );
}

#[test]
fn mapdir_without_colon_is_dropped_with_a_warning() {
    assert_eq!(
        parse_directive_line("// mapdir: nocolon"),
        LineOutcome::Warning(DirectiveWarning::MalformedMapDir(s("nocolon")))
    );
    let parsed = extracted("// WASI:\n// mapdir: nocolon\n// mapdir: a:b\n");
    assert_eq!(parsed.options.mapdir, vec![(s("a"), s("b"))]);
    assert_eq!(parsed.warnings, vec![DirectiveWarning::MalformedMapDir(s("nocolon"))]);
}

#[test]
fn mapdir_with_two_colons_is_dropped_with_a_warning() {
    assert_eq!(
        parse_directive_line("// mapdir: a:b:c"),
        LineOutcome::Warning(DirectiveWarning::MalformedMapDir(s("a:b:c")))
    );
    assert_eq!(
        parse_directive_line("// mapdir: ::"),
        LineOutcome::Warning(DirectiveWarning::MalformedMapDir(s("::")))
    );
    let parsed = extracted("// WASI:\n// mapdir: a:b:c\n");
    assert!(parsed.options.mapdir.is_empty());
    assert_eq!(parsed.options, WasiOptions::default());
    assert_eq!(parsed.warnings, vec![DirectiveWarning::MalformedMapDir(s("a:b:c"))]);
}

#[test]
fn env_splits_at_its_only_equals_sign() {
    assert_eq!(
        parse_directive_line("// env: DOG=X"),
        LineOutcome::Directive(Directive::Env(s("DOG"), s("X")))
    );
    assert_eq!(
        parse_directive_line("// env: DOG="),
        LineOutcome::Directive(Directive::Env(s("DOG"), s("")))
    );
    assert_eq!(
        parse_directive_line("// env: DOG"),
        LineOutcome::Warning(DirectiveWarning::MalformedEnv(s("DOG")))
    );
    assert_eq!(
        parse_directive_line("// env: A=B=C"),
        LineOutcome::Warning(DirectiveWarning::MalformedEnv(s("A=B=C")))
    );
    assert_eq!(
        parse_directive_line("// env: PATH=a:b"),
        LineOutcome::Directive(Directive::Env(s("PATH"), s("a:b")))
    );
}

#[test]
fn plain_payloads_are_taken_as_they_stand() {
    assert_eq!(
        parse_directive_line("// dir: a:b=c"),
        LineOutcome::Directive(Directive::Dir(s("a:b=c")))
    );
    assert_eq!(
        parse_directive_line("// arg: --x=y:z"),
        LineOutcome::Directive(Directive::Arg(s("--x=y:z")))
    );
    assert_eq!(
        parse_directive_line("// tempdir: t:"),
        LineOutcome::Directive(Directive::TempDir(s("t:")))
    );
    assert_eq!(
        parse_directive_line("// arg: \u{e9}t\u{e9}"),
        LineOutcome::Directive(Directive::Arg(s("\u{e9}t\u{e9}")))
    );
}

#[test]
fn unknown_directive_is_dropped_with_a_warning() {
    assert_eq!(
        parse_directive_line("// stdin: file"),
        LineOutcome::Warning(DirectiveWarning::Unsupported(s("stdin")))
    );
    assert_eq!(
        parse_directive_line("// stdin:"),
        LineOutcome::Warning(DirectiveWarning::Unsupported(s("stdin")))
    );
    assert_eq!(
        parse_directive_line("// :"),
        LineOutcome::Warning(DirectiveWarning::Unsupported(s("")))
    );
    assert_eq!(
        parse_directive_line("// Arg: x"),
        LineOutcome::Warning(DirectiveWarning::Unsupported(s("Arg")))
    );
    assert_eq!(
        parse_directive_line("// arg:: x"),
        LineOutcome::Warning(DirectiveWarning::Unsupported(s("arg:")))
    );
    let parsed = extracted("// WASI:\n// stdin: file\n// arg: one\n");
    assert_eq!(parsed.options.args, vec![s("one")]);
    assert_eq!(parsed.warnings, vec![DirectiveWarning::Unsupported(s("stdin"))]);
}

#[test]
fn directive_without_payload_is_dropped_with_a_warning() {
    for name in ["mapdir", "env", "dir", "arg", "tempdir"] {
        assert_eq!(
            parse_directive_line(&format!("// {}:", name)),
            LineOutcome::Warning(DirectiveWarning::MissingPayload(s(name)))
        );
        assert_eq!(
            parse_directive_line(&format!("// {}:   ", name)),
            LineOutcome::Warning(DirectiveWarning::MissingPayload(s(name)))
        );
    }
    let parsed = extracted("// WASI:\n// arg:\n// arg: one\n");
    assert_eq!(parsed.options.args, vec![s("one")]);
    assert_eq!(parsed.warnings, vec![DirectiveWarning::MissingPayload(s("arg"))]);
}

#[test]
fn name_without_colon_is_corrupt() {
    assert_eq!(
        parse_directive_line("// arg --flag"),
        LineOutcome::Corrupt(DirectiveError::MissingColon(s("arg")))
    );
    assert_eq!(
        parse_directive_line("// a:b c"),
        LineOutcome::Corrupt(DirectiveError::MissingColon(s("a:b")))
    );
    assert_eq!(
        extract_args_from_source_file("// WASI:\n// arg: one\n// just a comment\n// arg: two\n"),
        Err(DirectiveError::MissingColon(s("just")))
    );
    assert_eq!(
        options_of_source("// WASI:\n// plain words\nfn main() {}\n"),
        Err(DirectiveError::MissingColon(s("plain")))
    );
}

#[test]
fn comment_line_without_tokens_is_corrupt() {
    assert_eq!(parse_directive_line("// "), LineOutcome::Corrupt(DirectiveError::MissingName));
    assert_eq!(parse_directive_line("//  \t "), LineOutcome::Corrupt(DirectiveError::MissingName));
    assert_eq!(parse_directive_line(""), LineOutcome::Corrupt(DirectiveError::MissingName));
    assert_eq!(
        extract_args_from_source_file("// WASI:\n// \n// arg: two\n"),
        Err(DirectiveError::MissingName)
    );
    assert_eq!(
        extract_args_from_source_file("// WASI:\n// arg: one\n// \r\n"),
        Err(DirectiveError::MissingName)
    );
}

#[test]
fn first_corrupt_line_decides() {
    assert_eq!(
        extract_args_from_source_file("// WASI:\n// mapdir: bad\n// first\n// \n"),
        Err(DirectiveError::MissingColon(s("first")))
    );
}

#[test]
fn warnings_come_in_the_order_of_the_lines() {
    let parsed = extracted(
        "// WASI:\n// env: bad\n// what: ever\n// mapdir: bad\n// dir:\n// arg: fine\n",
    );
    assert_eq!(
        parsed.warnings,
        vec![
            DirectiveWarning::MalformedEnv(s("bad")),
            DirectiveWarning::Unsupported(s("what")),
            DirectiveWarning::MalformedMapDir(s("bad")),
            DirectiveWarning::MissingPayload(s("dir")),
        ]
    );
    assert_eq!(parsed.options.args, vec![s("fine")]);
}

#[test]
fn warnings_in_words() {
    assert_eq!(
        DirectiveWarning::MalformedMapDir(s("a:b:c")).message(),
        "Parse error in mapdir a:b:c not parsed correctly"
    );
    assert_eq!(
        DirectiveWarning::MalformedEnv(s("DOG")).message(),
        "Parse error in env DOG not parsed correctly"
    );
    assert_eq!(
        DirectiveWarning::Unsupported(s("stdin")).message(),
        "WARN: comment arg: `stdin` is not supported"
    );
    assert_eq!(
        DirectiveWarning::MissingPayload(s("arg")).message(),
        "WARN: comment arg: `arg` has no value"
    );
}

#[test]
fn errors_in_words() {
    assert_eq!(DirectiveError::MissingName.message(), "Directive line without an argname");
    assert_eq!(
        DirectiveError::MissingColon(s("arg")).message(),
        "Final character of argname must be a colon: `arg`"
    );
}

#[test]
fn applying_directives_appends() {
    let mut options = WasiOptions::default();
    options.apply(Directive::Arg(s("a")));
    options.apply(Directive::MapDir(s("x"), s("y")));
    options.apply(Directive::Arg(s("b")));
    options.apply(Directive::Env(s("K"), s("V")));
    options.apply(Directive::Dir(s("d")));
    options.apply(Directive::TempDir(s("t")));
    assert_eq!(
        options,
        WasiOptions {
            mapdir: vec![(s("x"), s("y"))],
            env: vec![(s("K"), s("V"))],
            args: vec![s("a"), s("b")],
            dir: vec![s("d")],
            tempdir: vec![s("t")],
        }
    );
}

/// The header comment of `source` read with the string functions of the
/// standard library: the options and the number of warnings, or nothing
/// where a line is corrupt.
fn read_with_std(source: &str) -> Result<Option<(WasiOptions, usize)>, ()> {
    if !source.starts_with("// WASI:") {
        return Ok(None);
    }
    let mut options = WasiOptions::default();
    let mut warnings = 0;
    for line in source.lines().skip(1).take_while(|line| line.starts_with("// ")) {
        let tokens: Vec<&str> = line.split_whitespace().skip(1).collect();
        let name = match tokens.first().and_then(|token| token.strip_suffix(':')) {
            Some(name) => name,
            None => return Err(()),
        };
        let known = ["mapdir", "env", "dir", "arg", "tempdir"].contains(&name);
        let payload = match tokens.get(1) {
            Some(payload) if known => payload,
            _ => {
                warnings += 1;
                continue;
            },
        };
        match name {
            "mapdir" => match payload.split(':').collect::<Vec<&str>>()[..] {
                [alias, target] => options.mapdir.push((s(alias), s(target))),
                _ => warnings += 1,
            },
            "env" => match payload.split('=').collect::<Vec<&str>>()[..] {
                [name, value] => options.env.push((s(name), s(value))),
                _ => warnings += 1,
            },
            "dir" => options.dir.push(s(payload)),
            "arg" => options.args.push(s(payload)),
            _ => options.tempdir.push(s(payload)),
        }
    }
    Ok(Some((options, warnings)))
}

#[test]
fn reading_agrees_with_the_standard_string_functions() {
    let names = [
        "mapdir:", "env:", "dir:", "arg:", "tempdir:", "mapdir:", "env:", "other:", ":", "arg",
    ];
    let gaps = [" ", " ", "  ", "\t", "\u{a0}", "\u{3000}", "\r", ""];
    let pieces = [
        "a", "b", "/tmp/out", ":", ":", "=", "=", "x:y", "K=v", "--flag", "\u{e9}", "\u{85}",
        "\u{2028}", "\u{b}", " ", "\t", "//", "// ",
    ];
    let mut state: u64 = 0x2545F4914F6CDD1D;
    let mut next = |bound: usize| {
        state = state.wrapping_mul(6364136223846793005).wrapping_add(1442695040888963407);
        ((state >> 33) as usize) % bound
    };
    let mut with_options = 0;
    let mut with_warnings = 0;
    let mut corrupt = 0;
    let mut without_header = 0;
    for round in 0..40000 {
        let mut source = String::new();
        if round % 16 != 0 {
            source.push_str("// WASI:");
        }
        for _ in 0..next(6) {
            source.push_str(if next(4) == 0 { "\r\n" } else { "\n" });
            if next(12) != 0 {
                source.push_str("// ");
            }
            if next(12) != 0 {
                source.push_str(gaps[next(gaps.len())]);
                source.push_str(names[next(names.len())]);
                source.push_str(gaps[next(gaps.len())]);
            }
            for _ in 0..next(4) {
                source.push_str(pieces[next(pieces.len())]);
            }
        }
        let expected = read_with_std(&source);
        let got = extract_args_from_source_file(&source);
        match (&expected, &got) {
            (Ok(None), Ok(None)) => without_header += 1,
            (Ok(Some((options, warnings))), Ok(Some(extraction))) => {
                if *options != WasiOptions::default() {
                    with_options += 1;
                }
                if *warnings > 0 {
                    with_warnings += 1;
                }
                assert_eq!(&extraction.options, options, "{:?}", source);
                assert_eq!(extraction.warnings.len(), *warnings, "{:?}", source);
            },
            (Err(()), Err(_)) => corrupt += 1,
            _ => panic!("{:?}: expected {:?}, got {:?}", source, expected, got),
        }
    }
    assert!(with_options > 1000, "{}", with_options);
    assert!(with_warnings > 1000, "{}", with_warnings);
    assert!(corrupt > 1000, "{}", corrupt);
    assert!(without_header > 1000, "{}", without_header);
}
