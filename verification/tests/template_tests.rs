//! The template resolver on concrete templates and configurations.

use nll_probe::{
    compiletest_command, cvpath, resolve_command, resolve_template, Configuration, PathText,
    TemplateError,
};

fn cfg() -> Configuration {
    Configuration {
        python: PathText::Text("/usr/bin/python".to_string()),
        rust_buildroot: PathText::Text("/build".to_string()),
        rust_srcroot: PathText::Text("/src".to_string()),
        host: "x86_64-unknown-linux-gnu".to_string(),
        cachedir: PathText::Text("/cache".to_string()),
        datadir: PathText::Text("/data".to_string()),
    }
}

#[test]
fn literal_template_is_unchanged() {
    let r = resolve_template("abc def", &cfg(), "run-pass", "ast", "");
    assert_eq!(r, Ok("abc def".to_string()));
}

#[test]
fn empty_template_stays_empty() {
    let r = resolve_template("", &cfg(), "run-pass", "ast", "");
    assert_eq!(r, Ok("".to_string()));
}

#[test]
fn placeholders_are_substituted() {
    let c = cfg();
    assert_eq!(
        resolve_template("{HOST}", &c, "run-pass", "ast", ""),
        Ok("x86_64-unknown-linux-gnu".to_string())
    );
    assert_eq!(
        resolve_template("x{SUITE}y", &c, "run-pass", "ast", ""),
        Ok("xrun-passy".to_string())
    );
    assert_eq!(
        resolve_template("{BUILDROOT}/{HOST}/bin", &c, "run-pass", "ast", ""),
        Ok("/build/x86_64-unknown-linux-gnu/bin".to_string())
    );
    assert_eq!(
        resolve_template("{EXTRA_FLAGS}", &c, "run-pass", "mir", "-Z borrowck=mir"),
        Ok("-Z borrowck=mir".to_string())
    );
}

#[test]
fn targetdir_is_cachedir_suite_kind() {
    assert_eq!(
        resolve_template("{TARGETDIR}", &cfg(), "compile-fail", "mir", ""),
        Ok("/cache/compile-fail/mir".to_string())
    );
}

#[test]
fn unknown_placeholder_is_an_error() {
    assert_eq!(
        resolve_template("{NOPE}", &cfg(), "run-pass", "ast", ""),
        Err(TemplateError::UnknownVar("NOPE".to_string()))
    );
}

#[test]
fn unclosed_placeholder_is_an_error() {
    assert_eq!(
        resolve_template("x{HOST", &cfg(), "run-pass", "ast", ""),
        Err(TemplateError::Unclosed)
    );
}

#[test]
fn lossy_path_is_a_bad_path_error() {
    let mut c = cfg();
    c.python = PathText::Lossy("/usr/bin/py\u{fffd}thon".to_string());
    assert_eq!(
        resolve_template("{PYTHON}", &c, "run-pass", "ast", ""),
        Err(TemplateError::BadPath("/usr/bin/py\u{fffd}thon".to_string()))
    );
}

#[test]
fn target_dir_joins_cachedir_mode_and_kind() {
    let c = cfg();
    match c.target_dir("run-pass", "ast") {
        PathText::Text(t) => assert_eq!(t, "/cache/run-pass/ast"),
        PathText::Lossy(_) => panic!("a text cache dir stays text"),
    }
    let mut lossy = cfg();
    lossy.cachedir = PathText::Lossy("bad\u{fffd}dir".to_string());
    match lossy.target_dir("run-pass", "mir") {
        PathText::Lossy(t) => assert_eq!(t, "bad\u{fffd}dir/run-pass/mir"),
        PathText::Text(_) => panic!("a lossy cache dir stays lossy"),
    }
}

#[test]
fn cvpath_converts_or_fails() {
    assert_eq!(cvpath(&PathText::Text("/a/b".to_string())), Ok("/a/b".to_string()));
    assert_eq!(
        cvpath(&PathText::Lossy("bad".to_string())),
        Err(TemplateError::BadPath("bad".to_string()))
    );
}

#[test]
fn command_resolution_keeps_order_length_and_empties() {
    let templates = vec![
        "".to_string(),
        "{HOST}".to_string(),
        "".to_string(),
        "lit".to_string(),
    ];
    let r = resolve_command(&templates, &cfg(), "run-pass", "ast", "").unwrap();
    assert_eq!(
        r,
        vec![
            "".to_string(),
            "x86_64-unknown-linux-gnu".to_string(),
            "".to_string(),
            "lit".to_string(),
        ]
    );
}

#[test]
fn command_resolution_stops_at_first_error() {
    let templates = vec!["ok".to_string(), "{NOPE}".to_string(), "{ALSO_NOT}".to_string()];
    assert_eq!(
        resolve_command(&templates, &cfg(), "run-pass", "ast", ""),
        Err(TemplateError::UnknownVar("NOPE".to_string()))
    );
}

#[test]
fn compiletest_command_resolves() {
    let templates = compiletest_command();
    assert_eq!(templates.len(), 48);
    let args = resolve_command(&templates, &cfg(), "run-pass", "mir", "-Z borrowck=mir").unwrap();
    assert_eq!(args.len(), 48);
    assert_eq!(
        args[0],
        "/build/x86_64-unknown-linux-gnu/stage0-tools/x86_64-unknown-linux-gnu/release/compiletest"
    );
    // --src-base value
    assert_eq!(args[7], "--src-base");
    assert_eq!(args[8], "/src/src/test/run-pass");
    // --build-base value is the target dir of the invocation
    assert_eq!(args[9], "--build-base");
    assert_eq!(args[10], "/cache/run-pass/mir");
    // the extra flags reach the target rustcflags
    assert_eq!(args[23], "--target-rustcflags");
    assert_eq!(
        args[24],
        "-Crpath -O -Lnative=/build/x86_64-unknown-linux-gnu/native/rust-test-helpers -Z borrowck=mir"
    );
    // empty elements stay empty
    assert_eq!(args[31], "");
}
