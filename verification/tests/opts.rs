//! Runtime checks of `-Z` argument parsing and option folding.

use bst_runtime::unstable_opts::{UnstableArg, UnstableOptions};

fn parse(s: &str) -> Result<UnstableArg, String> {
    UnstableArg::from_str(s)
}

#[test]
fn parses_bare_flags() {
    assert!(matches!(parse("help"), Ok(UnstableArg::Help)));
    assert!(matches!(parse("continue-on-errors"), Ok(UnstableArg::ContinueOnErrors)));
    assert!(matches!(parse("shell-escape"), Ok(UnstableArg::ShellEscapeEnabled)));
}

#[test]
fn parses_min_crossrefs_values() {
    assert!(matches!(parse("min-crossrefs=2"), Ok(UnstableArg::MinCrossrefs(2))));
    assert!(matches!(parse("min-crossrefs=-5"), Ok(UnstableArg::MinCrossrefs(-5))));
    assert!(matches!(parse("min-crossrefs=+7"), Ok(UnstableArg::MinCrossrefs(7))));
    assert!(matches!(
        parse("min-crossrefs=2147483647"),
        Ok(UnstableArg::MinCrossrefs(i32::MAX))
    ));
    assert!(matches!(
        parse("min-crossrefs=-2147483648"),
        Ok(UnstableArg::MinCrossrefs(i32::MIN))
    ));
}

#[test]
fn min_crossrefs_requires_a_value() {
    let e = parse("min-crossrefs").unwrap_err();
    assert_eq!(e, "'-Z min-crossrefs=<num>' requires a value but none was supplied");
}

#[test]
fn min_crossrefs_rejects_bad_numbers() {
    assert_eq!(
        parse("min-crossrefs=").unwrap_err(),
        "-Z min-crossrefs: cannot parse integer from empty string"
    );
    assert_eq!(
        parse("min-crossrefs=abc").unwrap_err(),
        "-Z min-crossrefs: invalid digit found in string"
    );
    assert_eq!(
        parse("min-crossrefs=+").unwrap_err(),
        "-Z min-crossrefs: invalid digit found in string"
    );
    assert_eq!(
        parse("min-crossrefs=12x3").unwrap_err(),
        "-Z min-crossrefs: invalid digit found in string"
    );
    assert_eq!(
        parse("min-crossrefs=2147483648").unwrap_err(),
        "-Z min-crossrefs: number too large to fit in target type"
    );
    assert_eq!(
        parse("min-crossrefs=-2147483649").unwrap_err(),
        "-Z min-crossrefs: number too small to fit in target type"
    );
}

#[test]
fn parses_valued_options() {
    match parse("paper-size=a4").unwrap() {
        UnstableArg::PaperSize(p) => assert_eq!(p, "a4"),
        other => panic!("wrong variant: {:?}", other),
    }
    match parse("search-path=/tmp/tex").unwrap() {
        UnstableArg::SearchPath(p) => assert_eq!(p, "/tmp/tex"),
        other => panic!("wrong variant: {:?}", other),
    }
    match parse("shell-escape-cwd=/work").unwrap() {
        UnstableArg::ShellEscapeCwd(p) => assert_eq!(p, "/work"),
        other => panic!("wrong variant: {:?}", other),
    }
}

#[test]
fn valued_options_require_values() {
    assert_eq!(
        parse("paper-size").unwrap_err(),
        "'-Z paper-size=<spec>' requires a value but none was supplied"
    );
    assert_eq!(
        parse("search-path").unwrap_err(),
        "'-Z search-path=<path>' requires a value but none was supplied"
    );
    assert_eq!(
        parse("shell-escape-cwd").unwrap_err(),
        "'-Z shell-escape-cwd=<path>' requires a value but none was supplied"
    );
}

#[test]
fn shell_escape_rejects_a_value() {
    let e = parse("shell-escape=1").unwrap_err();
    assert_eq!(
        e,
        "'-Z shell-escape=1', was supplied but '-Z shell-escape' does not take a value."
    );
}

#[test]
fn unknown_options_are_rejected_by_name() {
    assert_eq!(parse("frobnicate").unwrap_err(), "Unknown unstable option 'frobnicate'");
    assert_eq!(parse("frobnicate=3").unwrap_err(), "Unknown unstable option 'frobnicate'");
}

#[test]
fn value_keeps_later_equals_signs() {
    match parse("paper-size=a=b").unwrap() {
        UnstableArg::PaperSize(p) => assert_eq!(p, "a=b"),
        other => panic!("wrong variant: {:?}", other),
    }
}

#[test]
fn folds_arguments_in_order() {
    let args = vec![
        UnstableArg::ContinueOnErrors,
        UnstableArg::MinCrossrefs(3),
        UnstableArg::SearchPath(String::from("/a")),
        UnstableArg::PaperSize(String::from("letter")),
        UnstableArg::PaperSize(String::from("a4")),
        UnstableArg::SearchPath(String::from("/b")),
        UnstableArg::ShellEscapeCwd(String::from("/w")),
    ];
    let opts = UnstableOptions::from_unstable_args(args);
    assert!(opts.continue_on_errors);
    assert!(opts.shell_escape);
    assert_eq!(opts.min_crossrefs, Some(3));
    assert_eq!(opts.paper_size.as_deref(), Some("a4"));
    assert_eq!(opts.shell_escape_cwd.as_deref(), Some("/w"));
    assert_eq!(opts.extra_search_paths, vec!["/a", "/b"]);
}

#[test]
fn no_arguments_yield_defaults() {
    let opts = UnstableOptions::from_unstable_args(Vec::new());
    assert!(!opts.continue_on_errors);
    assert!(!opts.shell_escape);
    assert_eq!(opts.min_crossrefs, None);
    assert!(opts.paper_size.is_none());
    assert!(opts.shell_escape_cwd.is_none());
    assert!(opts.extra_search_paths.is_empty());
}

#[test]
fn shell_escape_flag_alone_sets_no_cwd() {
    let opts = UnstableOptions::from_unstable_args(vec![UnstableArg::ShellEscapeEnabled]);
    assert!(opts.shell_escape);
    assert!(opts.shell_escape_cwd.is_none());
}
