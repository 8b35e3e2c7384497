//! Which registry a JavaScript publishing command publishes to: the npmjs
//! registry, another registry, or one that cannot be told from the text.
use vstd::prelude::*;

use crate::publish::arg_views;
use crate::text::{
    contains_char, contains_seq, contains_str, starts_with_seq, str_eq, strip_prefix, trim_class,
    trim_end, trim_end_seq, trim_seq, trim_start_seq, CharClass,
};
use crate::UseTrustedPublishing;

verus! {

/// Where a publishing command sends its package.
#[derive(Clone, Copy, Debug, PartialEq, Eq, Structural)]
pub enum RegistryKind {
    /// `https://registry.npmjs.org`, which supports Trusted Publishing.
    Npmjs,
    /// Some other registry.
    NonNpmjs,
    /// A registry that is empty or only known at run time.
    Unknown,
}

/// A registry URL without surrounding white space, without surrounding
/// quotes and without trailing slashes.
pub open spec fn normalized_registry(registry: Seq<char>) -> Seq<char> {
    trim_end_seq(trim_seq(trim_seq(registry, CharClass::Whitespace), CharClass::Quote), CharClass::Slash)
}

/// The kind of the registry that the text `registry` names.
pub open spec fn registry_kind_of(registry: Seq<char>) -> RegistryKind {
    let r = normalized_registry(registry);
    if contains_seq(r, "${{"@) || r.contains('$') {
        RegistryKind::Unknown
    } else if r == "https://registry.npmjs.org"@ {
        RegistryKind::Npmjs
    } else if r.len() == 0 {
        RegistryKind::Unknown
    } else {
        RegistryKind::NonNpmjs
    }
}

/// The registry that the option at position `i` names: `--registry=<url>`,
/// or `--registry` followed by the URL as the next argument. Quotes around
/// the option are ignored.
pub open spec fn registry_option_at(a: Seq<Seq<char>>, i: int) -> Option<Seq<char>> {
    let arg = trim_seq(a[i], CharClass::Quote);
    if starts_with_seq(arg, "--registry="@) {
        Some(arg.subrange("--registry="@.len() as int, arg.len() as int))
    } else if arg == "--registry"@ && i + 1 < a.len() {
        Some(a[i + 1])
    } else {
        None
    }
}

/// `i` is the position of the first registry option in `a`.
pub open spec fn first_registry_option(a: Seq<Seq<char>>, i: int) -> bool {
    &&& 0 <= i < a.len()
    &&& registry_option_at(a, i) is Some
    &&& forall|j: int| 0 <= j < i ==> #[trigger] registry_option_at(a, j) is None
}

/// The registry that a JavaScript publishing command names with its first
/// `--registry` option; only `npm`, `pnpm`, `bunx` and `yarn` are read.
pub open spec fn publish_registry_of(cmd: Seq<char>, a: Seq<Seq<char>>) -> Option<RegistryKind> {
    if !(cmd == "npm"@ || cmd == "pnpm"@ || cmd == "bunx"@ || cmd == "yarn"@) {
        None
    } else if exists|i: int| first_registry_option(a, i) {
        let i = choose|i: int| first_registry_option(a, i);
        Some(registry_kind_of(registry_option_at(a, i).unwrap()))
    } else {
        None
    }
}

/// The registry that `npm config set registry <url>` (or
/// `registry=<url>`, and the same with `pnpm`) configures.
pub open spec fn config_registry_of(cmd: Seq<char>, a: Seq<Seq<char>>) -> Option<RegistryKind> {
    if !(cmd == "npm"@ || cmd == "pnpm"@) || a.len() < 3 {
        None
    } else if a[0] != "config"@ || a[1] != "set"@ {
        None
    } else {
        let key = trim_seq(a[2], CharClass::Quote);
        if key == "registry"@ {
            if a.len() > 3 {
                Some(registry_kind_of(a[3]))
            } else {
                None
            }
        } else if starts_with_seq(key, "registry="@) {
            Some(registry_kind_of(key.subrange("registry="@.len() as int, key.len() as int)))
        } else {
            None
        }
    }
}

impl UseTrustedPublishing {
    /// Classify a registry URL as written in a command or a workflow.
    pub fn registry_kind(registry: &str) -> (r: RegistryKind)
        ensures
            r == registry_kind_of(registry@),
    {
        let registry = trim_class(registry, &CharClass::Whitespace);
        let registry = trim_class(registry, &CharClass::Quote);
        let registry = trim_end(registry, &CharClass::Slash);

        if contains_str(registry, "${{") || contains_char(registry, '$') {
            RegistryKind::Unknown
        } else if str_eq(registry, "https://registry.npmjs.org") {
            RegistryKind::Npmjs
        } else if registry.unicode_len() == 0 {
            RegistryKind::Unknown
        } else {
            RegistryKind::NonNpmjs
        }
    }

    /// The registry that a JavaScript publishing command passes with
    /// `--registry`, if any.
    pub fn publish_registry_kind(cmd: &str, args: &[&str]) -> (r: Option<RegistryKind>)
        ensures
            r == publish_registry_of(cmd@, arg_views(args@)),
    {
        if !(str_eq(cmd, "npm") || str_eq(cmd, "pnpm") || str_eq(cmd, "bunx") || str_eq(cmd, "yarn")) {
            return None;
        }
        let ghost a = arg_views(args@);
        let n = args.len();
        let mut i: usize = 0;
        while i < n
            invariant
                n == args@.len(),
                a == arg_views(args@),
                cmd@ == "npm"@ || cmd@ == "pnpm"@ || cmd@ == "bunx"@ || cmd@ == "yarn"@,
                i <= n,
                forall|j: int| 0 <= j < i ==> #[trigger] registry_option_at(a, j) is None,
            decreases n - i,
        {
            let arg = trim_class(args[i], &CharClass::Quote);
            assert(arg@ == trim_seq(a[i as int], CharClass::Quote));
            if let Some(registry) = strip_prefix(arg, "--registry=") {
                let r = Self::registry_kind(registry);
                proof {
                    assert(first_registry_option(a, i as int));
                    assert forall|k: int| #[trigger] first_registry_option(a, k) implies k == i by {
                        if k < i {
                            assert(registry_option_at(a, k) is None);
                        } else if k > i {
                            assert(registry_option_at(a, i as int) is None);
                        }
                    }
                }
                return Some(r);
            }
            if str_eq(arg, "--registry") && i + 1 < n {
                let r = Self::registry_kind(args[i + 1]);
                proof {
                    assert(a[i + 1] == args@[i + 1]@);
                    assert(first_registry_option(a, i as int));
                    assert forall|k: int| #[trigger] first_registry_option(a, k) implies k == i by {
                        if k < i {
                            assert(registry_option_at(a, k) is None);
                        } else if k > i {
                            assert(registry_option_at(a, i as int) is None);
                        }
                    }
                }
                return Some(r);
            }
            i = i + 1;
        }
        None
    }

    /// The registry that an `npm config set registry ...` command (or the
    /// same with `pnpm`) configures, if it is one.
    pub fn npm_config_registry_kind(cmd: &str, args: &[&str]) -> (r: Option<RegistryKind>)
        ensures
            r == config_registry_of(cmd@, arg_views(args@)),
    {
        let ghost a = arg_views(args@);
        if !(str_eq(cmd, "npm") || str_eq(cmd, "pnpm")) || args.len() < 3 {
            return None;
        }
        if !str_eq(args[0], "config") || !str_eq(args[1], "set") {
            assert(a[0] == args@[0]@ && a[1] == args@[1]@);
            return None;
        }
        assert(a[0] == args@[0]@ && a[1] == args@[1]@ && a[2] == args@[2]@);
        let key = trim_class(args[2], &CharClass::Quote);
        if str_eq(key, "registry") {
            if args.len() > 3 {
                assert(a[3] == args@[3]@);
                return Some(Self::registry_kind(args[3]));
            } else {
                return None;
            }
        }
        match strip_prefix(key, "registry=") {
            Some(registry) => Some(Self::registry_kind(registry)),
            None => None,
        }
    }
}


/// White space around a registry never changes its kind.
pub proof fn lemma_surrounding_whitespace_ignored(registry: Seq<char>)
    ensures
        registry_kind_of(trim_seq(registry, CharClass::Whitespace)) == registry_kind_of(registry),
{
    crate::text::lemma_trim_idempotent(registry, CharClass::Whitespace);
}

/// `npm` and `pnpm` configure registries alike.
pub proof fn lemma_npm_and_pnpm_configure_alike(a: Seq<Seq<char>>)
    ensures
        config_registry_of("npm"@, a) == config_registry_of("pnpm"@, a),
{
    reveal_strlit("npm");
    reveal_strlit("pnpm");
}

/// `npm config set registry <url> ...` (or the same with `pnpm`) configures
/// the registry that `<url>` names, whatever follows it.
pub proof fn lemma_config_set_registry(cmd: Seq<char>, url: Seq<char>, rest: Seq<Seq<char>>)
    requires
        cmd == "npm"@ || cmd == "pnpm"@,
    ensures
        config_registry_of(cmd, seq!["config"@, "set"@, "registry"@, url] + rest) == Some(registry_kind_of(url)),
{
    reveal_strlit("registry");
    let a = seq!["config"@, "set"@, "registry"@, url] + rest;
    assert(a[0] == "config"@ && a[1] == "set"@ && a[2] == "registry"@ && a[3] == url);
    assert(trim_start_seq("registry"@, CharClass::Quote) == "registry"@);
    assert(trim_end_seq("registry"@, CharClass::Quote) == "registry"@);
}

/// `npm config set registry=<url> ...` (or the same with `pnpm`) configures
/// the registry that `<url>` names, when `<url>` does not end in a quote,
/// which the option's quotes would take away.
pub proof fn lemma_config_set_registry_joined(cmd: Seq<char>, url: Seq<char>, rest: Seq<Seq<char>>)
    requires
        cmd == "npm"@ || cmd == "pnpm"@,
        url.len() == 0 || !CharClass::Quote.has(url.last()),
    ensures
        config_registry_of(cmd, seq!["config"@, "set"@, "registry="@ + url] + rest) == Some(registry_kind_of(url)),
{
    reveal_strlit("registry");
    reveal_strlit("registry=");
    let key = "registry="@ + url;
    let a = seq!["config"@, "set"@, key] + rest;
    assert(a[0] == "config"@ && a[1] == "set"@ && a[2] == key);
    assert(key[0] == 'r');
    assert(trim_start_seq(key, CharClass::Quote) == key);
    assert(key.last() == if url.len() == 0 { '=' } else { url.last() });
    assert(trim_end_seq(key, CharClass::Quote) == key);
    assert(key != "registry"@) by {
        assert(key.len() != "registry"@.len());
    }
    assert(key.subrange(0, 9) =~= "registry="@);
    assert(key.subrange(9, key.len() as int) =~= url);
}

} // verus!
