//! Recognising publishing commands (`cargo publish`, `twine upload`,
//! `npm publish`, ...) from a command name and its arguments.
//!
//! Every rule reads the arguments left to right, the way one iterator is
//! consumed: "`x` ... `y`" means an `x` followed, somewhere later, by a `y`,
//! and "without `--dry-run`" means that no argument after the publishing verb
//! is `--dry-run`.
use vstd::prelude::*;

use crate::text::{starts_with, starts_with_seq, str_eq};
use crate::UseTrustedPublishing;

verus! {

/// What kind of publishing a recognised command does.
#[derive(Clone, Copy, Debug, PartialEq, Eq, Structural)]
pub enum PublishCommandKind {
    /// A publisher for which an `id-token: write` permission is enough
    /// evidence of Trusted Publishing.
    Other,
    /// A JavaScript package manager that can publish with Trusted Publishing
    /// but may still authenticate with a token.
    JsTrustedPublishing,
    /// `bun publish`, which cannot use Trusted Publishing.
    Bun,
}

/// A test that one argument passes or fails.
#[derive(Clone, Copy)]
pub enum ArgTest<'a> {
    /// The argument is exactly this string.
    Is(&'a str),
    /// The argument begins with this string.
    StartsWith(&'a str),
    /// The argument is exactly one of these two strings.
    IsEither(&'a str, &'a str),
    /// The argument is exactly the first string or begins with the second.
    IsOrStartsWith(&'a str, &'a str),
}

impl<'a> ArgTest<'a> {
    pub open spec fn passes(self, arg: Seq<char>) -> bool {
        match self {
            ArgTest::Is(w) => arg == w@,
            ArgTest::StartsWith(p) => starts_with_seq(arg, p@),
            ArgTest::IsEither(w1, w2) => arg == w1@ || arg == w2@,
            ArgTest::IsOrStartsWith(w, p) => arg == w@ || starts_with_seq(arg, p@),
        }
    }

    pub fn test(&self, arg: &str) -> (r: bool)
        ensures
            r == self.passes(arg@),
    {
        match self {
            ArgTest::Is(w) => str_eq(arg, w),
            ArgTest::StartsWith(p) => starts_with(arg, p),
            ArgTest::IsEither(w1, w2) => str_eq(arg, w1) || str_eq(arg, w2),
            ArgTest::IsOrStartsWith(w, p) => str_eq(arg, w) || starts_with(arg, p),
        }
    }
}

/// The characters of each argument.
pub open spec fn arg_views(args: Seq<&str>) -> Seq<Seq<char>> {
    args.map_values(|a: &str| a@)
}

/// `i` is the position of the first argument at or after `from` that passes `t`.
pub open spec fn first_from(args: Seq<Seq<char>>, from: int, t: ArgTest, i: int) -> bool {
    &&& 0 <= from <= i < args.len()
    &&& t.passes(args[i])
    &&& forall|j: int| from <= j < i ==> !t.passes(#[trigger] args[j])
}

/// No argument at or after `from` passes `t`.
pub open spec fn none_from(args: Seq<Seq<char>>, from: int, t: ArgTest) -> bool {
    forall|j: int| from <= j < args.len() ==> !t.passes(#[trigger] args[j])
}

/// Some argument at or after `from` passes `t`, and no argument after the
/// first such one passes `bad`.
pub open spec fn found_then_none(args: Seq<Seq<char>>, from: int, t: ArgTest, bad: ArgTest) -> bool {
    exists|i: int| #[trigger] first_from(args, from, t, i) && none_from(args, i + 1, bad)
}

/// There are arguments at increasing positions, all at or after `from`, that
/// pass the tests of `ts` in turn.
pub open spec fn in_order(args: Seq<Seq<char>>, from: int, ts: Seq<ArgTest>) -> bool
    decreases ts.len(),
{
    if ts.len() == 0 {
        true
    } else {
        exists|i: int|
            from <= i < args.len() && ts[0].passes(#[trigger] args[i]) && in_order(
                args,
                i + 1,
                ts.drop_first(),
            )
    }
}

pub open spec fn on(b: bool, kind: PublishCommandKind) -> Option<PublishCommandKind> {
    if b {
        Some(kind)
    } else {
        None
    }
}

/// `cargo ... publish` without `--dry-run` or `-n`.
pub open spec fn cargo_publishes(a: Seq<Seq<char>>) -> bool {
    found_then_none(a, 0, ArgTest::Is("publish"), ArgTest::IsEither("--dry-run", "-n"))
}

/// The first `publish` or `run` decides: `uv ... publish` without
/// `--dry-run`, or `uv ... run ... twine ... upload`.
pub open spec fn uv_publishes(a: Seq<Seq<char>>) -> bool {
    exists|i: int|
        #[trigger] first_from(a, 0, ArgTest::IsEither("publish", "run"), i) && {
            ||| a[i] == "publish"@ && none_from(a, i + 1, ArgTest::Is("--dry-run"))
            ||| a[i] == "run"@ && in_order(a, i + 1, seq![ArgTest::Is("twine"), ArgTest::Is("upload")])
        }
}

/// `uvx twine* ... upload`.
pub open spec fn uvx_publishes(a: Seq<Seq<char>>) -> bool {
    in_order(a, 0, seq![ArgTest::StartsWith("twine"), ArgTest::Is("upload")])
}

/// `hatch ... publish` and `pdm ... publish`.
pub open spec fn hatch_publishes(a: Seq<Seq<char>>) -> bool {
    in_order(a, 0, seq![ArgTest::Is("publish")])
}

/// `poetry ... publish` without `--dry-run`.
pub open spec fn poetry_publishes(a: Seq<Seq<char>>) -> bool {
    found_then_none(a, 0, ArgTest::Is("publish"), ArgTest::Is("--dry-run"))
}

/// `twine ... upload`.
pub open spec fn twine_publishes(a: Seq<Seq<char>>) -> bool {
    in_order(a, 0, seq![ArgTest::Is("upload")])
}

/// `pipx ... run ... twine* ... upload`.
pub open spec fn pipx_publishes(a: Seq<Seq<char>>) -> bool {
    in_order(a, 0, seq![ArgTest::Is("run"), ArgTest::StartsWith("twine"), ArgTest::Is("upload")])
}

/// `python* ... -m ... twine ... upload`.
pub open spec fn python_publishes(a: Seq<Seq<char>>) -> bool {
    in_order(a, 0, seq![ArgTest::Is("-m"), ArgTest::Is("twine"), ArgTest::Is("upload")])
}

/// `gem ... push`.
pub open spec fn gem_publishes(a: Seq<Seq<char>>) -> bool {
    in_order(a, 0, seq![ArgTest::Is("push")])
}

/// `bundle ... exec ... gem ... push`.
pub open spec fn bundle_publishes(a: Seq<Seq<char>>) -> bool {
    in_order(a, 0, seq![ArgTest::Is("exec"), ArgTest::Is("gem"), ArgTest::Is("push")])
}

/// `npm ... publish`, `pnpm ... publish` and `bun ... publish`, without `--dry-run`.
pub open spec fn npm_publishes(a: Seq<Seq<char>>) -> bool {
    found_then_none(a, 0, ArgTest::Is("publish"), ArgTest::Is("--dry-run"))
}

/// The first `publish` or `npm` decides: `yarn ... publish` (Yarn v1), or
/// `yarn ... npm ... publish` without `--dry-run` or `-n` (Yarn v2+).
pub open spec fn yarn_publishes(a: Seq<Seq<char>>) -> bool {
    exists|i: int|
        #[trigger] first_from(a, 0, ArgTest::IsEither("publish", "npm"), i) && {
            ||| a[i] == "publish"@
            ||| a[i] == "npm"@ && found_then_none(
                a,
                i + 1,
                ArgTest::Is("publish"),
                ArgTest::IsEither("--dry-run", "-n"),
            )
        }
}

/// `bunx npm ... publish` (or `npm@<version>`) without `--dry-run`.
pub open spec fn bunx_publishes(a: Seq<Seq<char>>) -> bool {
    exists|i: int|
        #[trigger] first_from(a, 0, ArgTest::IsOrStartsWith("npm", "npm@"), i) && found_then_none(
            a,
            i + 1,
            ArgTest::Is("publish"),
            ArgTest::Is("--dry-run"),
        )
}

/// `nuget ... push`.
pub open spec fn nuget_publishes(a: Seq<Seq<char>>) -> bool {
    in_order(a, 0, seq![ArgTest::Is("push")])
}

/// `dotnet ... nuget ... push`.
pub open spec fn dotnet_publishes(a: Seq<Seq<char>>) -> bool {
    in_order(a, 0, seq![ArgTest::Is("nuget"), ArgTest::Is("push")])
}

/// The kind of publishing that `cmd` with arguments `a` does, if any.
pub open spec fn publish_kind_of(cmd: Seq<char>, a: Seq<Seq<char>>) -> Option<PublishCommandKind> {
    if cmd == "cargo"@ {
        on(cargo_publishes(a), PublishCommandKind::Other)
    } else if cmd == "uv"@ {
        on(uv_publishes(a), PublishCommandKind::Other)
    } else if cmd == "uvx"@ {
        on(uvx_publishes(a), PublishCommandKind::Other)
    } else if cmd == "hatch"@ || cmd == "pdm"@ {
        on(hatch_publishes(a), PublishCommandKind::Other)
    } else if cmd == "poetry"@ {
        on(poetry_publishes(a), PublishCommandKind::Other)
    } else if cmd == "twine"@ {
        on(twine_publishes(a), PublishCommandKind::Other)
    } else if cmd == "pipx"@ {
        on(pipx_publishes(a), PublishCommandKind::Other)
    } else if starts_with_seq(cmd, "python"@) {
        on(python_publishes(a), PublishCommandKind::Other)
    } else if cmd == "gem"@ {
        on(gem_publishes(a), PublishCommandKind::Other)
    } else if cmd == "bundle"@ {
        on(bundle_publishes(a), PublishCommandKind::Other)
    } else if cmd == "npm"@ || cmd == "pnpm"@ {
        on(npm_publishes(a), PublishCommandKind::JsTrustedPublishing)
    } else if cmd == "yarn"@ {
        on(yarn_publishes(a), PublishCommandKind::JsTrustedPublishing)
    } else if cmd == "bunx"@ {
        on(bunx_publishes(a), PublishCommandKind::JsTrustedPublishing)
    } else if cmd == "bun"@ {
        on(npm_publishes(a), PublishCommandKind::Bun)
    } else if cmd == "nuget"@ || cmd == "nuget.exe"@ {
        on(nuget_publishes(a), PublishCommandKind::Other)
    } else if cmd == "dotnet"@ {
        on(dotnet_publishes(a), PublishCommandKind::Other)
    } else {
        None
    }
}

/// Two first positions of the same test from the same start are the same.
proof fn lemma_first_unique(args: Seq<Seq<char>>, from: int, t: ArgTest, i: int, k: int)
    requires
        first_from(args, from, t, i),
        first_from(args, from, t, k),
    ensures
        i == k,
{
    if i < k {
        assert(!t.passes(args[i]));
    } else if k < i {
        assert(!t.passes(args[k]));
    }
}

/// Ordered matching that succeeds from some start also succeeds from any
/// earlier start.
proof fn lemma_in_order_earlier(args: Seq<Seq<char>>, a: int, b: int, ts: Seq<ArgTest>)
    requires
        a <= b,
        in_order(args, b, ts),
    ensures
        in_order(args, a, ts),
{
    if ts.len() > 0 {
        let i = choose|i: int|
            b <= i < args.len() && ts[0].passes(#[trigger] args[i]) && in_order(
                args,
                i + 1,
                ts.drop_first(),
            );
        assert(a <= i < args.len() && ts[0].passes(args[i]) && in_order(args, i + 1, ts.drop_first()));
    }
}

/// The position of the first argument at or after `from` that passes `t`.
fn find_from(args: &[&str], from: usize, t: &ArgTest) -> (r: Option<usize>)
    requires
        from <= args@.len(),
    ensures
        r matches Some(i) ==> i < args.len(),
        match r {
            Some(i) => first_from(arg_views(args@), from as int, *t, i as int),
            None => none_from(arg_views(args@), from as int, *t),
        },
{
    let ghost a = arg_views(args@);
    let mut i = from;
    while i < args.len()
        invariant
            from <= i <= args@.len(),
            a == arg_views(args@),
            forall|j: int| from <= j < i ==> !t.passes(#[trigger] a[j]),
        decreases args@.len() - i,
    {
        if t.test(args[i]) {
            return Some(i);
        }
        i = i + 1;
    }
    None
}

/// Whether no argument at or after `from` passes `bad`.
fn none_passes_from(args: &[&str], from: usize, bad: &ArgTest) -> (r: bool)
    requires
        from <= args@.len(),
    ensures
        r == none_from(arg_views(args@), from as int, *bad),
{
    match find_from(args, from, bad) {
        Some(i) => {
            assert(bad.passes(arg_views(args@)[i as int]));
            false
        },
        None => true,
    }
}

/// Whether some argument at or after `from` passes `t` and no argument after
/// the first such one passes `bad`.
fn found_then_none_from(args: &[&str], from: usize, t: &ArgTest, bad: &ArgTest) -> (r: bool)
    requires
        from <= args@.len(),
    ensures
        r == found_then_none(arg_views(args@), from as int, *t, *bad),
{
    let ghost a = arg_views(args@);
    match find_from(args, from, t) {
        Some(i) => {
            let r = none_passes_from(args, i + 1, bad);
            proof {
                assert forall|k: int| #[trigger] first_from(a, from as int, *t, k) implies k == i by {
                    lemma_first_unique(a, from as int, *t, i as int, k);
                }
            }
            r
        },
        None => false,
    }
}

/// Whether arguments at increasing positions, all at or after `from`, pass
/// the tests of `ts` in turn.
fn in_order_from(args: &[&str], from: usize, ts: &[ArgTest]) -> (r: bool)
    requires
        from <= args@.len(),
    ensures
        r == in_order(arg_views(args@), from as int, ts@),
{
    let ghost a = arg_views(args@);
    let mut pos = from;
    let mut k: usize = 0;
    assert(ts@.skip(0) =~= ts@);
    while k < ts.len()
        invariant
            from <= pos <= args@.len(),
            k <= ts@.len(),
            a == arg_views(args@),
            in_order(a, from as int, ts@) == in_order(a, pos as int, ts@.skip(k as int)),
        decreases ts@.len() - k,
    {
        let ghost rest = ts@.skip(k as int);
        assert(rest.drop_first() =~= ts@.skip(k + 1));
        assert(rest[0] == ts@[k as int]);
        match find_from(args, pos, &ts[k]) {
            Some(i) => {
                proof {
                    if in_order(a, pos as int, rest) {
                        let w = choose|w: int|
                            pos <= w < a.len() && rest[0].passes(#[trigger] a[w]) && in_order(
                                a,
                                w + 1,
                                rest.drop_first(),
                            );
                        lemma_in_order_earlier(a, i + 1, w + 1, rest.drop_first());
                    }
                    if in_order(a, i + 1, rest.drop_first()) {
                        assert(pos <= i < a.len() && rest[0].passes(a[i as int]));
                    }
                }
                pos = i + 1;
            },
            None => {
                proof {
                    if in_order(a, pos as int, rest) {
                        let w = choose|w: int|
                            pos <= w < a.len() && rest[0].passes(#[trigger] a[w]) && in_order(
                                a,
                                w + 1,
                                rest.drop_first(),
                            );
                    }
                }
                return false;
            },
        }
        k = k + 1;
    }
    assert(ts@.skip(k as int).len() == 0);
    true
}

impl UseTrustedPublishing {
    /// Classify the given command and arguments if they correspond to a
    /// publishing command, e.g., `cargo publish`, `twine upload`, etc.
    pub fn publish_command_kind(cmd: &str, args: &[&str]) -> (r: Option<PublishCommandKind>)
        ensures
            r == publish_kind_of(cmd@, arg_views(args@)),
    {
        let (publishes, kind) = if str_eq(cmd, "cargo") {
            (Self::cargo_publishes(args), PublishCommandKind::Other)
        } else if str_eq(cmd, "uv") {
            (Self::uv_publishes(args), PublishCommandKind::Other)
        } else if str_eq(cmd, "uvx") {
            (Self::uvx_publishes(args), PublishCommandKind::Other)
        } else if str_eq(cmd, "hatch") || str_eq(cmd, "pdm") {
            (Self::hatch_publishes(args), PublishCommandKind::Other)
        } else if str_eq(cmd, "poetry") {
            (Self::npm_publishes(args), PublishCommandKind::Other)
        } else if str_eq(cmd, "twine") {
            (Self::twine_publishes(args), PublishCommandKind::Other)
        } else if str_eq(cmd, "pipx") {
            (Self::pipx_publishes(args), PublishCommandKind::Other)
        } else if starts_with(cmd, "python") {
            (Self::python_publishes(args), PublishCommandKind::Other)
        } else if str_eq(cmd, "gem") {
            (Self::gem_publishes(args), PublishCommandKind::Other)
        } else if str_eq(cmd, "bundle") {
            (Self::bundle_publishes(args), PublishCommandKind::Other)
        } else if str_eq(cmd, "npm") || str_eq(cmd, "pnpm") {
            (Self::npm_publishes(args), PublishCommandKind::JsTrustedPublishing)
        } else if str_eq(cmd, "yarn") {
            (Self::yarn_publishes(args), PublishCommandKind::JsTrustedPublishing)
        } else if str_eq(cmd, "bunx") {
            (Self::bunx_publishes(args), PublishCommandKind::JsTrustedPublishing)
        } else if str_eq(cmd, "bun") {
            (Self::npm_publishes(args), PublishCommandKind::Bun)
        } else if str_eq(cmd, "nuget") || str_eq(cmd, "nuget.exe") {
            (Self::gem_publishes(args), PublishCommandKind::Other)
        } else if str_eq(cmd, "dotnet") {
            (Self::dotnet_publishes(args), PublishCommandKind::Other)
        } else {
            (false, PublishCommandKind::Other)
        };
        if publishes {
            Some(kind)
        } else {
            None
        }
    }

    /// Whether the given command and arguments publish a package.
    pub fn is_publish_command(cmd: &str, args: &[&str]) -> (r: bool)
        ensures
            r == publish_kind_of(cmd@, arg_views(args@)) is Some,
    {
        Self::publish_command_kind(cmd, args).is_some()
    }

    fn in_order_from_start(args: &[&str], ts: &[ArgTest]) -> (r: bool)
        ensures
            r == in_order(arg_views(args@), 0, ts@),
    {
        in_order_from(args, 0, ts)
    }

    fn cargo_publishes(args: &[&str]) -> (r: bool)
        ensures
            r == cargo_publishes(arg_views(args@)),
    {
        found_then_none_from(args, 0, &ArgTest::Is("publish"), &ArgTest::IsEither("--dry-run", "-n"))
    }

    fn npm_publishes(args: &[&str]) -> (r: bool)
        ensures
            r == npm_publishes(arg_views(args@)),
            r == poetry_publishes(arg_views(args@)),
    {
        found_then_none_from(args, 0, &ArgTest::Is("publish"), &ArgTest::Is("--dry-run"))
    }

    fn uvx_publishes(args: &[&str]) -> (r: bool)
        ensures
            r == uvx_publishes(arg_views(args@)),
    {
        let ts = [ArgTest::StartsWith("twine"), ArgTest::Is("upload")];
        assert(ts@ =~= seq![ArgTest::StartsWith("twine"), ArgTest::Is("upload")]);
        Self::in_order_from_start(args, &ts)
    }

    fn hatch_publishes(args: &[&str]) -> (r: bool)
        ensures
            r == hatch_publishes(arg_views(args@)),
    {
        let ts = [ArgTest::Is("publish")];
        assert(ts@ =~= seq![ArgTest::Is("publish")]);
        Self::in_order_from_start(args, &ts)
    }

    fn twine_publishes(args: &[&str]) -> (r: bool)
        ensures
            r == twine_publishes(arg_views(args@)),
    {
        let ts = [ArgTest::Is("upload")];
        assert(ts@ =~= seq![ArgTest::Is("upload")]);
        Self::in_order_from_start(args, &ts)
    }

    fn pipx_publishes(args: &[&str]) -> (r: bool)
        ensures
            r == pipx_publishes(arg_views(args@)),
    {
        let ts = [ArgTest::Is("run"), ArgTest::StartsWith("twine"), ArgTest::Is("upload")];
        assert(ts@ =~= seq![ArgTest::Is("run"), ArgTest::StartsWith("twine"), ArgTest::Is("upload")]);
        Self::in_order_from_start(args, &ts)
    }

    fn python_publishes(args: &[&str]) -> (r: bool)
        ensures
            r == python_publishes(arg_views(args@)),
    {
        let ts = [ArgTest::Is("-m"), ArgTest::Is("twine"), ArgTest::Is("upload")];
        assert(ts@ =~= seq![ArgTest::Is("-m"), ArgTest::Is("twine"), ArgTest::Is("upload")]);
        Self::in_order_from_start(args, &ts)
    }

    fn gem_publishes(args: &[&str]) -> (r: bool)
        ensures
            r == gem_publishes(arg_views(args@)),
            r == nuget_publishes(arg_views(args@)),
    {
        let ts = [ArgTest::Is("push")];
        assert(ts@ =~= seq![ArgTest::Is("push")]);
        Self::in_order_from_start(args, &ts)
    }

    fn bundle_publishes(args: &[&str]) -> (r: bool)
        ensures
            r == bundle_publishes(arg_views(args@)),
    {
        let ts = [ArgTest::Is("exec"), ArgTest::Is("gem"), ArgTest::Is("push")];
        assert(ts@ =~= seq![ArgTest::Is("exec"), ArgTest::Is("gem"), ArgTest::Is("push")]);
        Self::in_order_from_start(args, &ts)
    }

    fn dotnet_publishes(args: &[&str]) -> (r: bool)
        ensures
            r == dotnet_publishes(arg_views(args@)),
    {
        let ts = [ArgTest::Is("nuget"), ArgTest::Is("push")];
        assert(ts@ =~= seq![ArgTest::Is("nuget"), ArgTest::Is("push")]);
        Self::in_order_from_start(args, &ts)
    }

    fn uv_publishes(args: &[&str]) -> (r: bool)
        ensures
            r == uv_publishes(arg_views(args@)),
    {
        let ghost a = arg_views(args@);
        let finder = ArgTest::IsEither("publish", "run");
        match find_from(args, 0, &finder) {
            Some(i) => {
                proof {
                    reveal_strlit("publish");
                    reveal_strlit("run");
                    assert(a[i as int] == args@[i as int]@);
                    assert forall|k: int| #[trigger] first_from(a, 0, finder, k) implies k == i by {
                        lemma_first_unique(a, 0, finder, i as int, k);
                    }
                }
                if str_eq(args[i], "publish") {
                    let r = none_passes_from(args, i + 1, &ArgTest::Is("--dry-run"));
                    proof {
                        if r {
                            assert(first_from(a, 0, finder, i as int) && (a[i as int] == "publish"@
                                && none_from(a, i + 1, ArgTest::Is("--dry-run"))));
                        }
                    }
                    r
                } else {
                    let ts = [ArgTest::Is("twine"), ArgTest::Is("upload")];
                    assert(ts@ =~= seq![ArgTest::Is("twine"), ArgTest::Is("upload")]);
                    let r = in_order_from(args, i + 1, &ts);
                    proof {
                        assert(a[i as int] == "run"@);
                        if r {
                            assert(first_from(a, 0, finder, i as int) && (a[i as int] == "run"@
                                && in_order(a, i + 1, seq![ArgTest::Is("twine"), ArgTest::Is("upload")])));
                        }
                    }
                    r
                }
            },
            None => false,
        }
    }

    fn yarn_publishes(args: &[&str]) -> (r: bool)
        ensures
            r == yarn_publishes(arg_views(args@)),
    {
        let ghost a = arg_views(args@);
        let finder = ArgTest::IsEither("publish", "npm");
        match find_from(args, 0, &finder) {
            Some(i) => {
                let r = if str_eq(args[i], "publish") {
                    true
                } else {
                    found_then_none_from(
                        args,
                        i + 1,
                        &ArgTest::Is("publish"),
                        &ArgTest::IsEither("--dry-run", "-n"),
                    )
                };
                proof {
                    assert forall|k: int| #[trigger] first_from(a, 0, finder, k) implies k == i by {
                        lemma_first_unique(a, 0, finder, i as int, k);
                    }
                }
                r
            },
            None => false,
        }
    }

    fn bunx_publishes(args: &[&str]) -> (r: bool)
        ensures
            r == bunx_publishes(arg_views(args@)),
    {
        let ghost a = arg_views(args@);
        let finder = ArgTest::IsOrStartsWith("npm", "npm@");
        match find_from(args, 0, &finder) {
            Some(i) => {
                let r = found_then_none_from(
                    args,
                    i + 1,
                    &ArgTest::Is("publish"),
                    &ArgTest::Is("--dry-run"),
                );
                proof {
                    assert forall|k: int| #[trigger] first_from(a, 0, finder, k) implies k == i by {
                        lemma_first_unique(a, 0, finder, i as int, k);
                    }
                }
                r
            },
            None => false,
        }
    }
}


/// The lengths and the first characters of the words that the rules look
/// for, which tell the words apart.
proof fn lemma_rule_words()
    ensures
        "cargo"@.len() == 5 && "cargo"@[0] == 'c' && "cargo"@[1] == 'a',
        "uv"@.len() == 2 && "uv"@[0] == 'u' && "uv"@[1] == 'v',
        "uvx"@.len() == 3 && "uvx"@[0] == 'u' && "uvx"@[1] == 'v',
        "hatch"@.len() == 5 && "hatch"@[0] == 'h' && "hatch"@[1] == 'a',
        "pdm"@.len() == 3 && "pdm"@[0] == 'p' && "pdm"@[1] == 'd',
        "poetry"@.len() == 6 && "poetry"@[0] == 'p' && "poetry"@[1] == 'o',
        "twine"@.len() == 5 && "twine"@[0] == 't' && "twine"@[1] == 'w',
        "pipx"@.len() == 4 && "pipx"@[0] == 'p' && "pipx"@[1] == 'i',
        "python"@.len() == 6 && "python"@[0] == 'p' && "python"@[1] == 'y',
        "gem"@.len() == 3 && "gem"@[0] == 'g' && "gem"@[1] == 'e',
        "bundle"@.len() == 6 && "bundle"@[0] == 'b' && "bundle"@[1] == 'u',
        "npm"@.len() == 3 && "npm"@[0] == 'n' && "npm"@[1] == 'p',
        "pnpm"@.len() == 4 && "pnpm"@[0] == 'p' && "pnpm"@[1] == 'n',
        "yarn"@.len() == 4 && "yarn"@[0] == 'y' && "yarn"@[1] == 'a',
        "bunx"@.len() == 4 && "bunx"@[0] == 'b' && "bunx"@[1] == 'u',
        "bun"@.len() == 3 && "bun"@[0] == 'b' && "bun"@[1] == 'u',
        "nuget"@.len() == 5 && "nuget"@[0] == 'n' && "nuget"@[1] == 'u',
        "nuget.exe"@.len() == 9 && "nuget.exe"@[0] == 'n' && "nuget.exe"@[1] == 'u',
        "dotnet"@.len() == 6 && "dotnet"@[0] == 'd' && "dotnet"@[1] == 'o',
        "publish"@.len() == 7 && "publish"@[0] == 'p' && "publish"@[1] == 'u',
        "run"@.len() == 3 && "run"@[0] == 'r' && "run"@[1] == 'u',
        "--dry-run"@.len() == 9 && "--dry-run"@[0] == '-' && "--dry-run"@[1] == '-',
        "-n"@.len() == 2 && "-n"@[0] == '-' && "-n"@[1] == 'n',
        "upload"@.len() == 6 && "upload"@[0] == 'u' && "upload"@[1] == 'p',
        "push"@.len() == 4 && "push"@[0] == 'p' && "push"@[1] == 'u',
        "exec"@.len() == 4 && "exec"@[0] == 'e' && "exec"@[1] == 'x',
        "-m"@.len() == 2 && "-m"@[0] == '-' && "-m"@[1] == 'm',
{
    reveal_strlit("cargo");
    reveal_strlit("uv");
    reveal_strlit("uvx");
    reveal_strlit("hatch");
    reveal_strlit("pdm");
    reveal_strlit("poetry");
    reveal_strlit("twine");
    reveal_strlit("pipx");
    reveal_strlit("python");
    reveal_strlit("gem");
    reveal_strlit("bundle");
    reveal_strlit("npm");
    reveal_strlit("pnpm");
    reveal_strlit("yarn");
    reveal_strlit("bunx");
    reveal_strlit("bun");
    reveal_strlit("nuget");
    reveal_strlit("nuget.exe");
    reveal_strlit("dotnet");
    reveal_strlit("publish");
    reveal_strlit("run");
    reveal_strlit("--dry-run");
    reveal_strlit("-n");
    reveal_strlit("upload");
    reveal_strlit("push");
    reveal_strlit("exec");
    reveal_strlit("-m");
}

/// The kind that a tool's publishing commands have: `npm`, `pnpm`, `yarn`
/// and `bunx` publish JavaScript packages, `bun` is its own kind, and every
/// other tool is `Other`.
pub open spec fn tool_kind(cmd: Seq<char>) -> PublishCommandKind {
    if cmd == "npm"@ || cmd == "pnpm"@ || cmd == "yarn"@ || cmd == "bunx"@ {
        PublishCommandKind::JsTrustedPublishing
    } else if cmd == "bun"@ {
        PublishCommandKind::Bun
    } else {
        PublishCommandKind::Other
    }
}

/// The command names that publishing commands can have.
pub open spec fn is_publishing_tool(cmd: Seq<char>) -> bool {
    ||| cmd == "cargo"@ || cmd == "uv"@ || cmd == "uvx"@ || cmd == "hatch"@ || cmd == "pdm"@
    ||| cmd == "poetry"@ || cmd == "twine"@ || cmd == "pipx"@ || starts_with_seq(cmd, "python"@)
    ||| cmd == "gem"@ || cmd == "bundle"@ || cmd == "npm"@ || cmd == "yarn"@ || cmd == "pnpm"@
    ||| cmd == "bunx"@ || cmd == "bun"@ || cmd == "nuget"@ || cmd == "nuget.exe"@ || cmd == "dotnet"@
}

/// The tools whose rule only asks for verbs in order, with no argument that
/// cancels the publishing.
pub open spec fn is_verbs_only_tool(cmd: Seq<char>) -> bool {
    ||| cmd == "uvx"@ || cmd == "hatch"@ || cmd == "pdm"@ || cmd == "twine"@ || cmd == "pipx"@
    ||| starts_with_seq(cmd, "python"@)
    ||| cmd == "gem"@ || cmd == "bundle"@ || cmd == "nuget"@ || cmd == "nuget.exe"@ || cmd == "dotnet"@
}

/// The tools whose rule ends in "without `--dry-run`": `cargo`, `poetry`,
/// `npm`, `pnpm`, `bunx` and `bun`.
pub open spec fn honours_dry_run(cmd: Seq<char>) -> bool {
    ||| cmd == "cargo"@ || cmd == "poetry"@ || cmd == "npm"@ || cmd == "pnpm"@
    ||| cmd == "bunx"@ || cmd == "bun"@
}

/// A recognised publishing command has the kind of its tool, and only the
/// known tools are ever recognised.
pub proof fn lemma_kind_follows_tool(cmd: Seq<char>, args: Seq<Seq<char>>)
    ensures
        publish_kind_of(cmd, args) matches Some(k) ==> k == tool_kind(cmd) && is_publishing_tool(cmd),
{
    lemma_rule_words();
    if starts_with_seq(cmd, "python"@) {
        // A name that begins with "python" is none of the JavaScript tools.
        assert(cmd[0] == cmd.subrange(0, 6)[0]);
        assert(cmd[1] == cmd.subrange(0, 6)[1]);
    }
}

/// An argument list that ends in `--dry-run` never publishes with a tool
/// whose rule says "without `--dry-run`".
pub proof fn lemma_trailing_dry_run_never_publishes(cmd: Seq<char>, args: Seq<Seq<char>>)
    requires
        honours_dry_run(cmd),
    ensures
        publish_kind_of(cmd, args.push("--dry-run"@)) is None,
{
    let a = args.push("--dry-run"@);
    let last = a.len() - 1;
    lemma_rule_words();
    assert(a[last] == "--dry-run"@);
    assert forall|from: int, i: int|
        #[trigger] first_from(a, from, ArgTest::Is("publish"), i) implies !none_from(
        a,
        i + 1,
        ArgTest::Is("--dry-run"),
    ) && !none_from(a, i + 1, ArgTest::IsEither("--dry-run", "-n")) by {
        assert(i != last);
        assert(ArgTest::Is("--dry-run").passes(a[last]));
        assert(ArgTest::IsEither("--dry-run", "-n").passes(a[last]));
    }
    assert(!found_then_none(a, 0, ArgTest::Is("publish"), ArgTest::Is("--dry-run")));
    assert(!found_then_none(a, 0, ArgTest::Is("publish"), ArgTest::IsEither("--dry-run", "-n")));
    assert(!bunx_publishes(a));
}

/// Ordered verbs that are found in a list of arguments are still found when
/// more arguments follow it.
proof fn lemma_in_order_extend(args: Seq<Seq<char>>, extra: Seq<Seq<char>>, from: int, ts: Seq<ArgTest>)
    requires
        0 <= from,
        in_order(args, from, ts),
    ensures
        in_order(args + extra, from, ts),
    decreases ts.len(),
{
    if ts.len() > 0 {
        let i = choose|i: int|
            from <= i < args.len() && ts[0].passes(#[trigger] args[i]) && in_order(
                args,
                i + 1,
                ts.drop_first(),
            );
        assert(0 <= from <= i < args.len());
        lemma_in_order_extend(args, extra, i + 1, ts.drop_first());
        let whole = args + extra;
        assert(whole[i] == args[i]);
        assert(from <= i < whole.len() && ts[0].passes(whole[i]) && in_order(
            whole,
            i + 1,
            ts.drop_first(),
        ));
    }
}

/// For the tools whose rule only asks for verbs in order (`twine ... upload`,
/// `gem ... push`, ...), a publishing command still publishes, with the same
/// kind, when more arguments are appended to it.
pub proof fn lemma_appended_args_keep_publishing(
    cmd: Seq<char>,
    args: Seq<Seq<char>>,
    extra: Seq<Seq<char>>,
)
    requires
        is_verbs_only_tool(cmd),
        publish_kind_of(cmd, args) is Some,
    ensures
        publish_kind_of(cmd, args + extra) == publish_kind_of(cmd, args),
{
    lemma_rule_words();
    let ts: Seq<ArgTest> = if cmd == "uvx"@ {
        seq![ArgTest::StartsWith("twine"), ArgTest::Is("upload")]
    } else if cmd == "hatch"@ || cmd == "pdm"@ {
        seq![ArgTest::Is("publish")]
    } else if cmd == "twine"@ {
        seq![ArgTest::Is("upload")]
    } else if cmd == "pipx"@ {
        seq![ArgTest::Is("run"), ArgTest::StartsWith("twine"), ArgTest::Is("upload")]
    } else if starts_with_seq(cmd, "python"@) {
        seq![ArgTest::Is("-m"), ArgTest::Is("twine"), ArgTest::Is("upload")]
    } else if cmd == "gem"@ || cmd == "nuget"@ || cmd == "nuget.exe"@ {
        seq![ArgTest::Is("push")]
    } else if cmd == "bundle"@ {
        seq![ArgTest::Is("exec"), ArgTest::Is("gem"), ArgTest::Is("push")]
    } else {
        seq![ArgTest::Is("nuget"), ArgTest::Is("push")]
    };
    assert(in_order(args, 0, ts));
    lemma_in_order_extend(args, extra, 0, ts);
}

/// `bigger` holds the arguments `args` in their order, with any others
/// before, between and after them: argument `i` of `args` is argument
/// `at(i)` of `bigger`, and `at` increases.
pub open spec fn is_embedding(args: Seq<Seq<char>>, bigger: Seq<Seq<char>>, at: spec_fn(int) -> int) -> bool {
    &&& forall|i: int| 0 <= i < args.len() ==> 0 <= #[trigger] at(i) < bigger.len() && bigger[at(i)] == args[i]
    &&& forall|i: int, j: int| 0 <= i < j < args.len() ==> #[trigger] at(i) < #[trigger] at(j)
}

proof fn lemma_in_order_embed(
    args: Seq<Seq<char>>,
    bigger: Seq<Seq<char>>,
    at: spec_fn(int) -> int,
    from: int,
    from_bigger: int,
    ts: Seq<ArgTest>,
)
    requires
        0 <= from,
        in_order(args, from, ts),
        is_embedding(args, bigger, at),
        forall|i: int| from <= i < args.len() ==> from_bigger <= #[trigger] at(i),
    ensures
        in_order(bigger, from_bigger, ts),
    decreases ts.len(),
{
    if ts.len() > 0 {
        let i = choose|i: int|
            from <= i < args.len() && ts[0].passes(#[trigger] args[i]) && in_order(
                args,
                i + 1,
                ts.drop_first(),
            );
        assert(from_bigger <= at(i));
        assert forall|k: int| i + 1 <= k < args.len() implies at(i) + 1 <= #[trigger] at(k) by {
            assert(at(i) < at(k));
        }
        lemma_in_order_embed(args, bigger, at, i + 1, at(i) + 1, ts.drop_first());
        assert(bigger[at(i)] == args[i]);
        assert(from_bigger <= at(i) < bigger.len() && ts[0].passes(bigger[at(i)]) && in_order(
            bigger,
            at(i) + 1,
            ts.drop_first(),
        ));
    }
}

/// For the tools whose rule only asks for verbs in order (`twine ... upload`,
/// `gem ... push`, ...), a publishing command still publishes, with the same
/// kind, when more arguments are inserted anywhere in it.
pub proof fn lemma_inserted_args_keep_publishing(
    cmd: Seq<char>,
    args: Seq<Seq<char>>,
    bigger: Seq<Seq<char>>,
    at: spec_fn(int) -> int,
)
    requires
        is_verbs_only_tool(cmd),
        publish_kind_of(cmd, args) is Some,
        is_embedding(args, bigger, at),
    ensures
        publish_kind_of(cmd, bigger) == publish_kind_of(cmd, args),
{
    lemma_rule_words();
    let ts: Seq<ArgTest> = if cmd == "uvx"@ {
        seq![ArgTest::StartsWith("twine"), ArgTest::Is("upload")]
    } else if cmd == "hatch"@ || cmd == "pdm"@ {
        seq![ArgTest::Is("publish")]
    } else if cmd == "twine"@ {
        seq![ArgTest::Is("upload")]
    } else if cmd == "pipx"@ {
        seq![ArgTest::Is("run"), ArgTest::StartsWith("twine"), ArgTest::Is("upload")]
    } else if starts_with_seq(cmd, "python"@) {
        seq![ArgTest::Is("-m"), ArgTest::Is("twine"), ArgTest::Is("upload")]
    } else if cmd == "gem"@ || cmd == "nuget"@ || cmd == "nuget.exe"@ {
        seq![ArgTest::Is("push")]
    } else if cmd == "bundle"@ {
        seq![ArgTest::Is("exec"), ArgTest::Is("gem"), ArgTest::Is("push")]
    } else {
        seq![ArgTest::Is("nuget"), ArgTest::Is("push")]
    };
    assert(in_order(args, 0, ts));
    lemma_in_order_embed(args, bigger, at, 0, 0, ts);
}

/// A `uv` command whose first `publish` or `run` argument is `run` publishes
/// exactly when an argument `twine` follows that `run` and an argument
/// `upload` follows the `twine`; it then has the kind `Other`. In
/// particular, without an `upload` argument it does not publish.
pub proof fn lemma_uv_run_needs_twine_then_upload(a: Seq<Seq<char>>, i: int)
    requires
        0 <= i < a.len(),
        a[i] == "run"@,
        forall|j: int| 0 <= j < i ==> a[j] != "publish"@ && a[j] != "run"@,
    ensures
        publish_kind_of("uv"@, a) is Some <==> exists|j: int, k: int|
            i < j < k < a.len() && #[trigger] a[j] == "twine"@ && #[trigger] a[k] == "upload"@,
        publish_kind_of("uv"@, a) is Some ==> publish_kind_of("uv"@, a) == Some(PublishCommandKind::Other),
        (forall|k: int| 0 <= k < a.len() ==> #[trigger] a[k] != "upload"@) ==> publish_kind_of("uv"@, a) is None,
{
    lemma_rule_words();
    reveal_strlit("twine");
    let finder = ArgTest::IsEither("publish", "run");
    assert(first_from(a, 0, finder, i));
    assert forall|k: int| #[trigger] first_from(a, 0, finder, k) implies k == i by {
        lemma_first_unique(a, 0, finder, i, k);
    }
    assert("run"@ != "publish"@);
    let ts = seq![ArgTest::Is("twine"), ArgTest::Is("upload")];
    let rest = seq![ArgTest::Is("upload")];
    assert(ts.drop_first() =~= rest);
    assert(rest.drop_first() =~= Seq::<ArgTest>::empty());
    assert(uv_publishes(a) <==> in_order(a, i + 1, ts));
    if in_order(a, i + 1, ts) {
        let j = choose|j: int| i + 1 <= j < a.len() && ts[0].passes(#[trigger] a[j]) && in_order(a, j + 1, rest);
        let k = choose|k: int| j + 1 <= k < a.len() && rest[0].passes(#[trigger] a[k]) && in_order(
            a,
            k + 1,
            rest.drop_first(),
        );
        assert(i < j < k < a.len() && a[j] == "twine"@ && a[k] == "upload"@);
    }
    if exists|j: int, k: int| i < j < k < a.len() && #[trigger] a[j] == "twine"@ && #[trigger] a[k] == "upload"@ {
        let (j, k) = choose|j: int, k: int| i < j < k < a.len() && #[trigger] a[j] == "twine"@ && #[trigger] a[k] == "upload"@;
        assert(in_order(a, k + 1, rest.drop_first()));
        assert(ts[0].passes(a[j]));
        assert(rest[0].passes(a[k]));
        assert(in_order(a, j + 1, rest));
        assert(in_order(a, i + 1, ts));
    }
}

/// A `uv` command whose first `publish` or `run` argument is `publish`
/// publishes exactly when no `--dry-run` argument follows it.
pub proof fn lemma_uv_publish_unless_dry_run(a: Seq<Seq<char>>, i: int)
    requires
        0 <= i < a.len(),
        a[i] == "publish"@,
        forall|j: int| 0 <= j < i ==> a[j] != "publish"@ && a[j] != "run"@,
    ensures
        publish_kind_of("uv"@, a) is Some <==> forall|k: int| i < k < a.len() ==> #[trigger] a[k] != "--dry-run"@,
{
    lemma_rule_words();
    let finder = ArgTest::IsEither("publish", "run");
    assert(first_from(a, 0, finder, i));
    assert forall|k: int| #[trigger] first_from(a, 0, finder, k) implies k == i by {
        lemma_first_unique(a, 0, finder, i, k);
    }
    assert("run"@ != "publish"@);
    assert(uv_publishes(a) <==> none_from(a, i + 1, ArgTest::Is("--dry-run")));
}

} // verus!
