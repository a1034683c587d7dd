//! The template resolver: substitutes named placeholders of the form
//! `{NAME}` in a command template with values drawn from the configuration,
//! preserving the literal text around them.  Resolving a whole command
//! resolves each element independently, keeping order and length.

use vstd::prelude::*;

use crate::config::{cvpath, cvpath_spec, join2_spec, Configuration, ConfigurationV, PathTextV};
use crate::errors::{res_view, TemplateError, TemplateErrorV};
use crate::strutil::str_eq;

verus! {

/// The values a placeholder may draw on: the configured paths, the host
/// triple, and the suite, kind and extra flags of the invocation at hand.
/// `targetdir` is computed, not stored: it is `cachedir/<suite>/<kind>`.
pub struct ResolveCtxV {
    pub python: PathTextV,
    pub buildroot: PathTextV,
    pub srcroot: PathTextV,
    pub targetdir: PathTextV,
    pub host: Seq<char>,
    pub suite: Seq<char>,
    pub cachedir: PathTextV,
    pub extra_flags: Seq<char>,
}

/// The resolution context of one harness invocation.
pub open spec fn ctx_of(
    c: ConfigurationV,
    suite: Seq<char>,
    kind: Seq<char>,
    extra_flags: Seq<char>,
) -> ResolveCtxV {
    ResolveCtxV {
        python: c.python,
        buildroot: c.rust_buildroot,
        srcroot: c.rust_srcroot,
        targetdir: join2_spec(c.cachedir, suite, kind),
        host: c.host,
        suite: suite,
        cachedir: c.cachedir,
        extra_flags: extra_flags,
    }
}

/// The value of one placeholder: the recognized names in order, then the
/// unknown-variable error carrying the offending name.
pub open spec fn lookup_spec(ctx: ResolveCtxV, name: Seq<char>) -> Result<
    Seq<char>,
    TemplateErrorV,
> {
    if name == "PYTHON"@ {
        cvpath_spec(ctx.python)
    } else if name == "BUILDROOT"@ {
        cvpath_spec(ctx.buildroot)
    } else if name == "SRCROOT"@ {
        cvpath_spec(ctx.srcroot)
    } else if name == "TARGETDIR"@ {
        cvpath_spec(ctx.targetdir)
    } else if name == "HOST"@ {
        Ok(ctx.host)
    } else if name == "SUITE"@ {
        Ok(ctx.suite)
    } else if name == "CACHEDIR"@ {
        cvpath_spec(ctx.cachedir)
    } else if name == "EXTRA_FLAGS"@ {
        Ok(ctx.extra_flags)
    } else {
        Err(TemplateErrorV::UnknownVar(name))
    }
}

/// Prepend resolved text to the rest of a resolution, letting an error
/// through unchanged.
pub open spec fn ok_prepend(p: Seq<char>, r: Result<Seq<char>, TemplateErrorV>) -> Result<
    Seq<char>,
    TemplateErrorV,
> {
    match r {
        Ok(s) => Ok(p + s),
        Err(e) => Err(e),
    }
}

/// Resolution of the template `t` from index `i` on, outside a placeholder:
/// literal characters are kept, and `{` opens a placeholder.
pub open spec fn resolve_from(t: Seq<char>, i: int, ctx: ResolveCtxV) -> Result<
    Seq<char>,
    TemplateErrorV,
>
    decreases t.len() - i, 1int,
{
    if i < 0 || i >= t.len() {
        Ok(Seq::empty())
    } else if t[i] == '{' {
        resolve_ph(t, i + 1, Seq::empty(), ctx)
    } else {
        ok_prepend(seq![t[i]], resolve_from(t, i + 1, ctx))
    }
}

/// Resolution of the template `t` from index `i` on, inside a placeholder
/// whose name so far is `name`: `}` closes the placeholder and substitutes
/// its value; a template that ends first is malformed.
pub open spec fn resolve_ph(
    t: Seq<char>,
    i: int,
    name: Seq<char>,
    ctx: ResolveCtxV,
) -> Result<Seq<char>, TemplateErrorV>
    decreases t.len() - i, 0int,
{
    if i < 0 || i >= t.len() {
        Err(TemplateErrorV::Unclosed)
    } else if t[i] == '}' {
        match lookup_spec(ctx, name) {
            Ok(v) => ok_prepend(v, resolve_from(t, i + 1, ctx)),
            Err(e) => Err(e),
        }
    } else {
        resolve_ph(t, i + 1, name.push(t[i]), ctx)
    }
}

/// The fully substituted form of the template `t`, or the first error.
pub open spec fn resolve_spec(t: Seq<char>, ctx: ResolveCtxV) -> Result<
    Seq<char>,
    TemplateErrorV,
> {
    resolve_from(t, 0, ctx)
}

proof fn lemma_literal_resolve_from(t: Seq<char>, i: int, ctx: ResolveCtxV)
    requires
        0 <= i <= t.len(),
        forall|k: int| i <= k < t.len() ==> t[k] != '{',
    ensures
        resolve_from(t, i, ctx) == Ok::<Seq<char>, TemplateErrorV>(t.skip(i)),
    decreases t.len() - i,
{
    if i == t.len() {
        assert(t.skip(i) =~= Seq::<char>::empty());
    } else {
        lemma_literal_resolve_from(t, i + 1, ctx);
        assert(seq![t[i]] + t.skip(i + 1) =~= t.skip(i));
    }
}

/// A template without placeholders resolves to itself: literal segments
/// are preserved, and the empty template stays empty.
pub proof fn lemma_literal_template(t: Seq<char>, ctx: ResolveCtxV)
    requires
        forall|k: int| 0 <= k < t.len() ==> t[k] != '{',
    ensures
        resolve_spec(t, ctx) == Ok::<Seq<char>, TemplateErrorV>(t),
{
    lemma_literal_resolve_from(t, 0, ctx);
    assert(t.skip(0) =~= t);
}

/// Look one placeholder name up in the configuration of one invocation.
pub fn lookup_var(
    cfg: &Configuration,
    suite: &str,
    kind: &str,
    extra_flags: &str,
    name: &str,
) -> (r: Result<String, TemplateError>)
    ensures
        res_view(r) == lookup_spec(ctx_of(cfg@, suite@, kind@, extra_flags@), name@),
{
    if str_eq(name, "PYTHON") {
        cvpath(&cfg.python)
    } else if str_eq(name, "BUILDROOT") {
        cvpath(&cfg.rust_buildroot)
    } else if str_eq(name, "SRCROOT") {
        cvpath(&cfg.rust_srcroot)
    } else if str_eq(name, "TARGETDIR") {
        cvpath(&cfg.target_dir(suite, kind))
    } else if str_eq(name, "HOST") {
        Ok(cfg.host.clone())
    } else if str_eq(name, "SUITE") {
        Ok(suite.to_owned())
    } else if str_eq(name, "CACHEDIR") {
        cvpath(&cfg.cachedir)
    } else if str_eq(name, "EXTRA_FLAGS") {
        Ok(extra_flags.to_owned())
    } else {
        Err(TemplateError::UnknownVar(name.to_owned()))
    }
}

/// Substitute every placeholder in `t`; literal segments are preserved in
/// order, and an empty template resolves to the empty string.
pub fn resolve_template(
    t: &str,
    cfg: &Configuration,
    suite: &str,
    kind: &str,
    extra_flags: &str,
) -> (r: Result<String, TemplateError>)
    ensures
        res_view(r) == resolve_spec(t@, ctx_of(cfg@, suite@, kind@, extra_flags@)),
{
    let ghost ctx = ctx_of(cfg@, suite@, kind@, extra_flags@);
    let len = t.unicode_len();
    let mut out = String::new();
    let mut i: usize = 0;
    loop
        invariant
            len == t@.len(),
            i <= len,
            ctx == ctx_of(cfg@, suite@, kind@, extra_flags@),
            resolve_from(t@, 0, ctx) == ok_prepend(out@, resolve_from(t@, i as int, ctx)),
        decreases len - i,
    {
        if i == len {
            proof {
                assert(out@ + Seq::<char>::empty() =~= out@);
            }
            return Ok(out);
        }
        let c = t.get_char(i);
        if c != '{' {
            let ghost out0 = out@;
            out.append(t.substring_char(i, i + 1));
            proof {
                assert(t@.subrange(i as int, i + 1) =~= seq![t@[i as int]]);
                assert(out@ =~= out0 + seq![t@[i as int]]);
                match resolve_from(t@, i + 1, ctx) {
                    Ok(rest) => {
                        assert(out0 + (seq![t@[i as int]] + rest) =~= out@ + rest);
                    },
                    Err(_) => {},
                }
            }
            i = i + 1;
        } else {
            // scan the placeholder name up to the closing brace
            proof {
                assert(t@.subrange(i + 1, i + 1) =~= Seq::<char>::empty());
            }
            let mut j: usize = i + 1;
            while j < len && t.get_char(j) != '}'
                invariant
                    len == t@.len(),
                    i + 1 <= j <= len,
                    i < len,
                    resolve_ph(t@, i + 1, Seq::empty(), ctx) == resolve_ph(
                        t@,
                        j as int,
                        t@.subrange(i + 1, j as int),
                        ctx,
                    ),
                decreases len - j,
            {
                proof {
                    assert(t@.subrange(i + 1, j as int).push(t@[j as int]) =~= t@.subrange(
                        i + 1,
                        j + 1,
                    ));
                }
                j = j + 1;
            }
            if j == len {
                return Err(TemplateError::Unclosed);
            }
            let name = t.substring_char(i + 1, j);
            let value = match lookup_var(cfg, suite, kind, extra_flags, name) {
                Ok(v) => v,
                Err(e) => {
                    return Err(e);
                },
            };
            let ghost out0 = out@;
            out.append(value.as_str());
            proof {
                match resolve_from(t@, j + 1, ctx) {
                    Ok(rest) => {
                        assert(out0 + (value@ + rest) =~= out@ + rest);
                    },
                    Err(_) => {},
                }
            }
            i = j + 1;
        }
    }
}

/// Resolution of a whole argument-vector template: each element resolved
/// independently, order and length preserved, stopped by the first error.
pub open spec fn resolve_command_spec(ts: Seq<Seq<char>>, ctx: ResolveCtxV) -> Result<
    Seq<Seq<char>>,
    TemplateErrorV,
>
    decreases ts.len(),
{
    if ts.len() == 0 {
        Ok(Seq::empty())
    } else {
        match resolve_from(ts[0], 0, ctx) {
            Err(e) => Err(e),
            Ok(v) => match resolve_command_spec(ts.drop_first(), ctx) {
                Err(e) => Err(e),
                Ok(rest) => Ok(seq![v] + rest),
            },
        }
    }
}

/// A successful command resolution preserves order and length and resolves
/// every element independently; empty elements stay as empty strings.
pub proof fn lemma_resolve_command_elementwise(ts: Seq<Seq<char>>, ctx: ResolveCtxV)
    requires
        resolve_command_spec(ts, ctx) is Ok,
    ensures
        resolve_command_spec(ts, ctx)->Ok_0.len() == ts.len(),
        forall|k: int|
            0 <= k < ts.len() ==> resolve_spec(ts[k], ctx) == Ok::<Seq<char>, TemplateErrorV>(
                resolve_command_spec(ts, ctx)->Ok_0[k],
            ),
    decreases ts.len(),
{
    if ts.len() == 0 {
    } else {
        lemma_resolve_command_elementwise(ts.drop_first(), ctx);
        assert forall|k: int| 0 <= k < ts.len() implies resolve_spec(ts[k], ctx) == Ok::<
            Seq<char>,
            TemplateErrorV,
        >(resolve_command_spec(ts, ctx)->Ok_0[k]) by {
            if k > 0 {
                assert(ts.drop_first()[k - 1] == ts[k]);
            }
        }
    }
}

/// Resolve each element of an argument-vector template in order, stopping
/// at the first element that fails.
pub fn resolve_command(
    templates: &Vec<String>,
    cfg: &Configuration,
    suite: &str,
    kind: &str,
    extra_flags: &str,
) -> (r: Result<Vec<String>, TemplateError>)
    ensures
        match r {
            Ok(args) => resolve_command_spec(
                templates.deep_view(),
                ctx_of(cfg@, suite@, kind@, extra_flags@),
            ) == Ok::<Seq<Seq<char>>, TemplateErrorV>(args.deep_view()),
            Err(e) => resolve_command_spec(
                templates.deep_view(),
                ctx_of(cfg@, suite@, kind@, extra_flags@),
            ) == Err::<Seq<Seq<char>>, TemplateErrorV>(e@),
        },
{
    let ghost ctx = ctx_of(cfg@, suite@, kind@, extra_flags@);
    let ghost ts = templates.deep_view();
    let mut out: Vec<String> = Vec::new();
    let mut i: usize = 0;
    proof {
        assert(ts.skip(0) =~= ts);
    }
    while i < templates.len()
        invariant
            ts == templates.deep_view(),
            ctx == ctx_of(cfg@, suite@, kind@, extra_flags@),
            i <= templates.len(),
            ts.len() == templates.len(),
            resolve_command_spec(ts, ctx) == match resolve_command_spec(ts.skip(i as int), ctx) {
                Ok(rest) => Ok::<Seq<Seq<char>>, TemplateErrorV>(out.deep_view() + rest),
                Err(e) => Err::<Seq<Seq<char>>, TemplateErrorV>(e),
            },
        decreases templates.len() - i,
    {
        let ghost out0 = out.deep_view();
        let ghost tail = ts.skip(i as int);
        proof {
            assert(tail[0] == ts[i as int]);
            assert(tail.drop_first() =~= ts.skip(i + 1));
        }
        let arg = match resolve_template(templates[i].as_str(), cfg, suite, kind, extra_flags) {
            Ok(v) => v,
            Err(e) => {
                return Err(e);
            },
        };
        out.push(arg);
        proof {
            assert(out.deep_view() =~= out0.push(arg@));
            match resolve_command_spec(ts.skip(i + 1), ctx) {
                Ok(rest) => {
                    assert(out0 + (seq![arg@] + rest) =~= out0.push(arg@) + rest);
                },
                Err(_) => {},
            }
        }
        i = i + 1;
    }
    proof {
        assert(ts.skip(i as int).len() == 0);
        assert(out.deep_view() + Seq::<Seq<char>>::empty() =~= out.deep_view());
    }
    Ok(out)
}

/// The fixed argument-vector template of one harness invocation.
pub open spec fn compiletest_template_spec() -> Seq<Seq<char>> {
    seq![
        "{BUILDROOT}/{HOST}/stage0-tools/x86_64-unknown-linux-gnu/release/compiletest"@,
        "--compile-lib-path"@,
        "{BUILDROOT}/{HOST}/stage1/lib"@,
        "--run-lib-path"@,
        "{BUILDROOT}/{HOST}/stage1/lib/rustlib/x86_64-unknown-linux-gnu/lib"@,
        "--rustc-path"@,
        "{BUILDROOT}/{HOST}/stage1/bin/rustc"@,
        "--src-base"@,
        "{SRCROOT}/src/test/{SUITE}"@,
        "--build-base"@,
        "{TARGETDIR}"@,
        "--stage-id"@,
        "stage1-{HOST}"@,
        "--mode"@,
        "{SUITE}"@,
        "--target"@,
        "{HOST}"@,
        "--host"@,
        "{HOST}"@,
        "--llvm-filecheck"@,
        "{BUILDROOT}/{HOST}/llvm/build/bin/FileCheck"@,
        "--host-rustcflags"@,
        "-Crpath -O"@,
        "--target-rustcflags"@,
        "-Crpath -O -Lnative={BUILDROOT}/{HOST}/native/rust-test-helpers {EXTRA_FLAGS}"@,
        "--llvm-version"@,
        "4.0.1"@,
        "--lldb-python"@,
        "/dev/null"@,
        "--docck-python"@,
        "/dev/null"@,
        ""@,
        "--cc"@,
        ""@,
        "--cxx"@,
        ""@,
        "--cflags"@,
        ""@,
        "--llvm-components"@,
        ""@,
        "--llvm-cxxflags"@,
        ""@,
        "--adb-path"@,
        "adb"@,
        "--adb-test-dir"@,
        "/data/tmp/work"@,
        "--android-cross-path"@,
        ""@,
    ]
}

/// The fixed argument-vector template of one harness invocation: static
/// data resolved afresh per suite and kind.  The first element names the
/// executable; empty elements stay empty when resolved.
pub fn compiletest_command() -> (r: Vec<String>)
    ensures
        r.deep_view() == compiletest_template_spec(),
        r@.len() == 48,
{
    let mut v: Vec<String> = Vec::new();
    v.push("{BUILDROOT}/{HOST}/stage0-tools/x86_64-unknown-linux-gnu/release/compiletest".to_owned());
    v.push("--compile-lib-path".to_owned());
    v.push("{BUILDROOT}/{HOST}/stage1/lib".to_owned());
    v.push("--run-lib-path".to_owned());
    v.push("{BUILDROOT}/{HOST}/stage1/lib/rustlib/x86_64-unknown-linux-gnu/lib".to_owned());
    v.push("--rustc-path".to_owned());
    v.push("{BUILDROOT}/{HOST}/stage1/bin/rustc".to_owned());
    v.push("--src-base".to_owned());
    v.push("{SRCROOT}/src/test/{SUITE}".to_owned());
    v.push("--build-base".to_owned());
    v.push("{TARGETDIR}".to_owned());
    v.push("--stage-id".to_owned());
    v.push("stage1-{HOST}".to_owned());
    v.push("--mode".to_owned());
    v.push("{SUITE}".to_owned());
    v.push("--target".to_owned());
    v.push("{HOST}".to_owned());
    v.push("--host".to_owned());
    v.push("{HOST}".to_owned());
    v.push("--llvm-filecheck".to_owned());
    v.push("{BUILDROOT}/{HOST}/llvm/build/bin/FileCheck".to_owned());
    v.push("--host-rustcflags".to_owned());
    v.push("-Crpath -O".to_owned());
    v.push("--target-rustcflags".to_owned());
    v.push("-Crpath -O -Lnative={BUILDROOT}/{HOST}/native/rust-test-helpers {EXTRA_FLAGS}".to_owned());
    v.push("--llvm-version".to_owned());
    v.push("4.0.1".to_owned());
    v.push("--lldb-python".to_owned());
    v.push("/dev/null".to_owned());
    v.push("--docck-python".to_owned());
    v.push("/dev/null".to_owned());
    v.push("".to_owned());
    v.push("--cc".to_owned());
    v.push("".to_owned());
    v.push("--cxx".to_owned());
    v.push("".to_owned());
    v.push("--cflags".to_owned());
    v.push("".to_owned());
    v.push("--llvm-components".to_owned());
    v.push("".to_owned());
    v.push("--llvm-cxxflags".to_owned());
    v.push("".to_owned());
    v.push("--adb-path".to_owned());
    v.push("adb".to_owned());
    v.push("--adb-test-dir".to_owned());
    v.push("/data/tmp/work".to_owned());
    v.push("--android-cross-path".to_owned());
    v.push("".to_owned());
    proof {
        assert(v.deep_view() =~= compiletest_template_spec());
    }
    v
}

} // verus!
