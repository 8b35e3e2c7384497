//! Publishing commands found in a `run:` script, each with its kind, the
//! registry it publishes to and an inline token assignment in front of it.
use vstd::prelude::*;

use crate::publish::{arg_views, publish_kind_of, PublishCommandKind};
use crate::registry::{config_registry_of, publish_registry_of, RegistryKind};
use crate::text::str_eq;
use crate::UseTrustedPublishing;

verus! {

/// A piece of a `run:` script: the byte offset where it starts and its text.
#[derive(Clone, Copy, Debug, PartialEq, Eq)]
pub struct Subfeature<'doc> {
    pub after: usize,
    pub fragment: &'doc str,
}

impl<'doc> Subfeature<'doc> {
    pub fn new(after: usize, fragment: &'doc str) -> (r: Self)
        ensures
            r.after == after,
            r.fragment == fragment,
    {
        Subfeature { after, fragment }
    }
}

/// A named child of a shell command: whether it is a variable assignment,
/// the text of its `name` field when it is one and has it, where it starts
/// and its whole text.
#[derive(Clone, Copy, Debug)]
pub struct CommandPart<'doc> {
    pub is_variable_assignment: bool,
    pub name: Option<&'doc str>,
    pub start: usize,
    pub text: &'doc str,
}

/// One shell command of a script: the command name, its arguments, the
/// command's whole span and its named children.
#[derive(Clone, Debug)]
pub struct CommandMatch<'doc> {
    pub cmd: &'doc str,
    pub args: Vec<&'doc str>,
    pub span_start: usize,
    pub span_text: &'doc str,
    pub parts: Vec<CommandPart<'doc>>,
}

/// A publishing command found in a script.
#[derive(Clone, Copy, Debug)]
pub struct PublishCommandCandidate<'doc> {
    pub command: Subfeature<'doc>,
    pub kind: PublishCommandKind,
    pub registry: Option<RegistryKind>,
    pub inline_token_assignment: Option<Subfeature<'doc>>,
}

/// The environment variables through which JavaScript package managers
/// take a registry token.
pub open spec fn is_js_token_var(name: Seq<char>) -> bool {
    name == "NODE_AUTH_TOKEN"@ || name == "NPM_TOKEN"@ || name == "YARN_NPM_AUTH_TOKEN"@
}

/// The part is an assignment of a JavaScript token variable.
pub open spec fn is_js_token_assignment(p: CommandPart) -> bool {
    &&& p.is_variable_assignment
    &&& p.name matches Some(n) && is_js_token_var(n@)
}

/// The first JavaScript token assignment among `parts`, as a piece of the script.
pub open spec fn inline_token_assignment_of(parts: Seq<CommandPart>) -> Option<Subfeature>
    decreases parts.len(),
{
    if parts.len() == 0 {
        None
    } else if is_js_token_assignment(parts[0]) {
        Some(Subfeature { after: parts[0].start, fragment: parts[0].text })
    } else {
        inline_token_assignment_of(parts.drop_first())
    }
}

/// The registry that the last `npm config set registry ...` among the first
/// `n` commands configured, if any did.
pub open spec fn configured_registry_before(ms: Seq<CommandMatch>, n: int) -> Option<RegistryKind>
    decreases n,
{
    if n <= 0 {
        None
    } else {
        match config_registry_of(ms[n - 1].cmd@, arg_views(ms[n - 1].args@)) {
            Some(k) => Some(k),
            None => configured_registry_before(ms, n - 1),
        }
    }
}

/// The candidate that command `k` of `ms` makes, if it publishes: its inline
/// token assignment is only looked for in Bourne-like shells and for
/// JavaScript publishers, and its registry is its own `--registry` option or
/// else the registry configured by the commands up to and including it.
pub open spec fn candidate_at(ms: Seq<CommandMatch>, k: int, bourne: bool) -> Option<PublishCommandCandidate> {
    let m = ms[k];
    match publish_kind_of(m.cmd@, arg_views(m.args@)) {
        Some(kind) => Some(
            PublishCommandCandidate {
                command: Subfeature { after: m.span_start, fragment: m.span_text },
                kind,
                registry: match publish_registry_of(m.cmd@, arg_views(m.args@)) {
                    Some(r) => Some(r),
                    None => configured_registry_before(ms, k + 1),
                },
                inline_token_assignment: if kind == PublishCommandKind::JsTrustedPublishing && bourne {
                    inline_token_assignment_of(m.parts@)
                } else {
                    None
                },
            },
        ),
        None => None,
    }
}

/// The candidates that the first `n` commands of `ms` make, in order.
pub open spec fn candidates_upto(ms: Seq<CommandMatch>, n: int, bourne: bool) -> Seq<PublishCommandCandidate>
    decreases n,
{
    if n <= 0 {
        Seq::empty()
    } else {
        let before = candidates_upto(ms, n - 1, bourne);
        match candidate_at(ms, n - 1, bourne) {
            Some(c) => before.push(c),
            None => before,
        }
    }
}

/// The candidates that the commands `ms` make, in order.
pub open spec fn candidates_of(ms: Seq<CommandMatch>, bourne: bool) -> Seq<PublishCommandCandidate> {
    candidates_upto(ms, ms.len() as int, bourne)
}

/// Every candidate among those of the first `n` commands of `ms` is the
/// span of one of those commands.
pub proof fn lemma_candidates_are_command_spans(ms: Seq<CommandMatch>, n: int, bourne: bool)
    requires
        0 <= n <= ms.len(),
    ensures
        forall|j: int|
            0 <= j < candidates_upto(ms, n, bourne).len() ==> exists|k: int|
                0 <= k < n && (#[trigger] candidates_upto(ms, n, bourne)[j]).command == (Subfeature {
                    after: ms[k].span_start,
                    fragment: ms[k].span_text,
                }),
    decreases n,
{
    if n > 0 {
        lemma_candidates_are_command_spans(ms, n - 1, bourne);
        let before = candidates_upto(ms, n - 1, bourne);
        let now = candidates_upto(ms, n, bourne);
        assert forall|j: int| 0 <= j < now.len() implies exists|k: int|
            0 <= k < n && (#[trigger] now[j]).command == (Subfeature {
                after: ms[k].span_start,
                fragment: ms[k].span_text,
            }) by {
            if j < before.len() {
                assert(now[j] == before[j]);
                let k = choose|k: int|
                    0 <= k < n - 1 && (#[trigger] before[j]).command == (Subfeature {
                        after: ms[k].span_start,
                        fragment: ms[k].span_text,
                    });
                assert(0 <= k < n);
            } else {
                assert(now[j].command == (Subfeature { after: ms[n - 1].span_start, fragment: ms[n - 1].span_text }));
            }
        }
    }
}

fn is_js_token_var_name(name: &str) -> (r: bool)
    ensures
        r == is_js_token_var(name@),
{
    str_eq(name, "NODE_AUTH_TOKEN") || str_eq(name, "NPM_TOKEN") || str_eq(name, "YARN_NPM_AUTH_TOKEN")
}

impl UseTrustedPublishing {
    /// The first assignment of a JavaScript token variable among the named
    /// children of a command, e.g. `NODE_AUTH_TOKEN=... npm publish`.
    pub fn find_inline_js_token_assignment<'doc>(parts: &[CommandPart<'doc>]) -> (r: Option<Subfeature<'doc>>)
        ensures
            r == inline_token_assignment_of(parts@),
    {
        let n = parts.len();
        let mut i: usize = 0;
        assert(parts@.skip(0) =~= parts@);
        while i < n
            invariant
                n == parts@.len(),
                i <= n,
                inline_token_assignment_of(parts@) == inline_token_assignment_of(parts@.skip(i as int)),
            decreases n - i,
        {
            assert(parts@.skip(i as int).drop_first() =~= parts@.skip(i + 1));
            assert(parts@.skip(i as int)[0] == parts@[i as int]);
            let part = parts[i];
            if part.is_variable_assignment {
                if let Some(name) = part.name {
                    if is_js_token_var_name(name) {
                        return Some(Subfeature::new(part.start, part.text));
                    }
                }
            }
            i = i + 1;
        }
        None
    }

    /// The publishing commands among `matches`, in order. `bourne` says
    /// whether the script is a Bourne-like shell script (`bash`, `sh`, `zsh`).
    pub fn candidates_from_matches<'doc>(matches: &[CommandMatch<'doc>], bourne: bool) -> (r: Vec<
        PublishCommandCandidate<'doc>,
    >)
        ensures
            r@ == candidates_of(matches@, bourne),
    {
        let mut out: Vec<PublishCommandCandidate<'doc>> = Vec::new();
        let mut configured: Option<RegistryKind> = None;
        let n = matches.len();
        let mut k: usize = 0;
        while k < n
            invariant
                n == matches@.len(),
                k <= n,
                out@ == candidates_upto(matches@, k as int, bourne),
                configured == configured_registry_before(matches@, k as int),
            decreases n - k,
        {
            let m = &matches[k];
            let args = m.args.as_slice();
            if let Some(config_registry) = Self::npm_config_registry_kind(m.cmd, args) {
                configured = Some(config_registry);
            }
            if let Some(kind) = Self::publish_command_kind(m.cmd, args) {
                let inline_token_assignment = match kind {
                    PublishCommandKind::JsTrustedPublishing if bourne => {
                        Self::find_inline_js_token_assignment(m.parts.as_slice())
                    },
                    _ => None,
                };
                let registry = match Self::publish_registry_kind(m.cmd, args) {
                    Some(r) => Some(r),
                    None => configured,
                };
                out.push(
                    PublishCommandCandidate {
                        command: Subfeature::new(m.span_start, m.span_text),
                        kind,
                        registry,
                        inline_token_assignment,
                    },
                );
            }
            k = k + 1;
        }
        out
    }
}

/// A candidate whose command names no registry of its own has the registry
/// configured by the last `npm`/`pnpm config set registry` command at or
/// before it, however many other commands come between them.
pub proof fn lemma_candidate_takes_last_configured_registry(ms: Seq<CommandMatch>, j: int, k: int, bourne: bool)
    requires
        0 <= j <= k < ms.len(),
        config_registry_of(ms[j].cmd@, arg_views(ms[j].args@)) is Some,
        forall|l: int| j < l <= k ==> #[trigger] config_registry_of(ms[l].cmd@, arg_views(ms[l].args@)) is None,
        publish_registry_of(ms[k].cmd@, arg_views(ms[k].args@)) is None,
        candidate_at(ms, k, bourne) is Some,
    ensures
        candidate_at(ms, k, bourne)->Some_0.registry == config_registry_of(ms[j].cmd@, arg_views(ms[j].args@)),
{
    lemma_configured_from(ms, j, k + 1);
}

/// A candidate whose command names no registry of its own, with no command
/// at or before it configuring one, has no registry.
pub proof fn lemma_candidate_without_configured_registry(ms: Seq<CommandMatch>, k: int, bourne: bool)
    requires
        0 <= k < ms.len(),
        forall|l: int| 0 <= l <= k ==> #[trigger] config_registry_of(ms[l].cmd@, arg_views(ms[l].args@)) is None,
        publish_registry_of(ms[k].cmd@, arg_views(ms[k].args@)) is None,
        candidate_at(ms, k, bourne) is Some,
    ensures
        candidate_at(ms, k, bourne)->Some_0.registry is None,
{
    lemma_nothing_configured(ms, k + 1);
}

proof fn lemma_configured_from(ms: Seq<CommandMatch>, j: int, n: int)
    requires
        0 <= j < n <= ms.len(),
        config_registry_of(ms[j].cmd@, arg_views(ms[j].args@)) is Some,
        forall|l: int| j < l < n ==> #[trigger] config_registry_of(ms[l].cmd@, arg_views(ms[l].args@)) is None,
    ensures
        configured_registry_before(ms, n) == config_registry_of(ms[j].cmd@, arg_views(ms[j].args@)),
    decreases n,
{
    if n - 1 > j {
        assert(config_registry_of(ms[n - 1].cmd@, arg_views(ms[n - 1].args@)) is None);
        lemma_configured_from(ms, j, n - 1);
    }
}

proof fn lemma_nothing_configured(ms: Seq<CommandMatch>, n: int)
    requires
        0 <= n <= ms.len(),
        forall|l: int| 0 <= l < n ==> #[trigger] config_registry_of(ms[l].cmd@, arg_views(ms[l].args@)) is None,
    ensures
        configured_registry_before(ms, n) is None,
    decreases n,
{
    if n > 0 {
        assert(config_registry_of(ms[n - 1].cmd@, arg_views(ms[n - 1].args@)) is None);
        lemma_nothing_configured(ms, n - 1);
    }
}

/// The command `m` neither configures a registry nor publishes.
pub open spec fn is_bystander(m: CommandMatch) -> bool {
    &&& config_registry_of(m.cmd@, arg_views(m.args@)) is None
    &&& publish_kind_of(m.cmd@, arg_views(m.args@)) is None
}

proof fn lemma_configured_with_bystander(ms: Seq<CommandMatch>, p: int, m: CommandMatch, n: int)
    requires
        0 <= p <= ms.len(),
        is_bystander(m),
        0 <= n <= ms.len() + 1,
    ensures
        n <= p ==> configured_registry_before(ms.insert(p, m), n) == configured_registry_before(ms, n),
        n > p ==> configured_registry_before(ms.insert(p, m), n) == configured_registry_before(ms, n - 1),
    decreases n,
{
    ms.insert_ensures(p, m);
    if n > 0 {
        lemma_configured_with_bystander(ms, p, m, n - 1);
        if n - 1 > p {
            assert(ms.insert(p, m)[(n - 2) + 1] == ms[n - 2]);
        }
    }
}

proof fn lemma_candidates_with_bystander(ms: Seq<CommandMatch>, p: int, m: CommandMatch, n: int, bourne: bool)
    requires
        0 <= p <= ms.len(),
        is_bystander(m),
        0 <= n <= ms.len() + 1,
    ensures
        n <= p ==> candidates_upto(ms.insert(p, m), n, bourne) == candidates_upto(ms, n, bourne),
        n > p ==> candidates_upto(ms.insert(p, m), n, bourne) == candidates_upto(ms, n - 1, bourne),
    decreases n,
{
    let ms2 = ms.insert(p, m);
    ms.insert_ensures(p, m);
    if n > 0 {
        lemma_candidates_with_bystander(ms, p, m, n - 1, bourne);
        lemma_configured_with_bystander(ms, p, m, n);
        if n - 1 < p {
            assert(ms2[n - 1] == ms[n - 1]);
            assert(candidate_at(ms2, n - 1, bourne) == candidate_at(ms, n - 1, bourne));
        } else if n - 1 == p {
            assert(ms2[p] == m);
            assert(candidate_at(ms2, n - 1, bourne) is None);
        } else {
            assert(ms2[(n - 2) + 1] == ms[n - 2]);
            assert(candidate_at(ms2, n - 1, bourne) == candidate_at(ms, n - 2, bourne));
        }
    }
}

/// Inserting anywhere in a script a command that neither configures a
/// registry nor publishes (such as `npm run build`) leaves its candidates
/// unchanged: registries configured before it still reach the publishing
/// commands after it.
pub proof fn lemma_bystander_changes_no_candidate(ms: Seq<CommandMatch>, p: int, m: CommandMatch, bourne: bool)
    requires
        0 <= p <= ms.len(),
        is_bystander(m),
    ensures
        candidates_of(ms.insert(p, m), bourne) == candidates_of(ms, bourne),
{
    ms.insert_ensures(p, m);
    lemma_candidates_with_bystander(ms, p, m, ms.len() + 1int, bourne);
}

} // verus!
