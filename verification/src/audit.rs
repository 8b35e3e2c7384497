//! The decisions of the audit: which known publishing actions are set up
//! with a manual credential, which `run:` publishing commands to report, and
//! where the credential of a JavaScript publishing command comes from.
use vstd::prelude::*;

use crate::candidates::{candidates_of, is_js_token_var, CommandMatch, PublishCommandCandidate, Subfeature};
use crate::shell::{
    dialect_of, is_bourne_shell, script_error, script_read_from, script_readable, shell_program, AuditError,
};
use crate::publish::PublishCommandKind;
use crate::registry::{registry_kind_of, RegistryKind};
use crate::text::{eq_ignore_ascii_case, eq_ignore_ascii_case_seq, str_eq, trim_class, CharClass, trim_seq};
use crate::UseTrustedPublishing;

verus! {

/// A `uses:` of an action in a repository (`owner/repo[/path]@ref`), by its
/// owner and repository.
#[derive(Clone, Copy, Debug)]
pub struct RepositoryUses<'doc> {
    pub owner: &'doc str,
    pub repo: &'doc str,
}

/// A `with:` or `env:` block: its keys and values as written, or an
/// expression that only evaluates at run time.
#[derive(Clone, Debug)]
pub enum Block<'doc> {
    Literal(Vec<(&'doc str, &'doc str)>),
    Expression,
}

/// What a step does: use an action, or run a script.
#[derive(Clone, Debug)]
pub enum StepBody<'doc> {
    /// `uses:`; `uses` is `None` when the step uses a Docker image or a
    /// local action rather than a repository.
    Uses { uses: Option<RepositoryUses<'doc>>, with: Block<'doc> },
    /// `run:` with its `shell:`, when the step or its defaults name one.
    Run { run: &'doc str, shell: Option<&'doc str> },
}

/// A workflow step with what the audit reads of its surroundings.
#[derive(Clone, Debug)]
pub struct Step<'doc> {
    pub body: StepBody<'doc>,
    /// The step's own `env:`.
    pub env: Block<'doc>,
    /// The `env:` of the step's job.
    pub job_env: Block<'doc>,
    /// The `env:` of the workflow.
    pub workflow_env: Block<'doc>,
    /// Whether the job is granted `id-token: write`.
    pub has_id_token: bool,
    /// The steps that come before this one in its job, in order.
    pub prior_steps: Vec<StepBody<'doc>>,
}

/// The value of `key` in a literal block: the first entry with that key.
pub open spec fn block_lookup(entries: Seq<(&str, &str)>, key: Seq<char>) -> Option<Seq<char>>
    decreases entries.len(),
{
    if entries.len() == 0 {
        None
    } else if entries[0].0@ == key {
        Some(entries[0].1@)
    } else {
        block_lookup(entries.drop_first(), key)
    }
}

/// The value of `key` in a literal block.
pub fn lookup<'doc>(entries: &[(&'doc str, &'doc str)], key: &str) -> (r: Option<&'doc str>)
    ensures
        r matches Some(v) ==> block_lookup(entries@, key@) == Some(v@),
        r is None ==> block_lookup(entries@, key@) is None,
{
    let n = entries.len();
    let mut i: usize = 0;
    assert(entries@.skip(0) =~= entries@);
    while i < n
        invariant
            n == entries@.len(),
            i <= n,
            block_lookup(entries@, key@) == block_lookup(entries@.skip(i as int), key@),
        decreases n - i,
    {
        assert(entries@.skip(i as int).drop_first() =~= entries@.skip(i + 1));
        assert(entries@.skip(i as int)[0] == entries@[i as int]);
        let (k, v) = entries[i];
        if str_eq(k, key) {
            return Some(v);
        }
        i = i + 1;
    }
    None
}

// ---------------------------------------------------------------------------
// Known publishing actions
// ---------------------------------------------------------------------------

/// How the value of a control input is read.
#[derive(Clone, Copy, Debug)]
pub enum ControlFieldType {
    /// A boolean input: on when its value is `true`, in any case, with white
    /// space around it ignored.
    Boolean,
    /// On when the value is one of these strings.
    Exact(&'static [&'static str]),
    /// On whenever it is set, whatever its value.
    FreeString,
}

/// A test of one input of an action: whether the input `field_name` is on,
/// an input that is not set counting as `enabled_by_default`; with `negated`,
/// whether it is off.
#[derive(Clone, Copy, Debug)]
pub struct InputTest {
    pub field_name: &'static str,
    pub field_type: ControlFieldType,
    pub enabled_by_default: bool,
    pub negated: bool,
}

/// An action that supports Trusted Publishing, the input tests that all
/// hold when a use of it relies on a manual credential, and the keys that
/// locate the credential in the step.
#[derive(Clone, Debug)]
pub struct KnownAction {
    pub owner: &'static str,
    pub repo: &'static str,
    pub all_of: Vec<InputTest>,
    pub keys: &'static [&'static str],
}

/// `v` is one of `values`.
pub open spec fn is_listed(values: Seq<&str>, v: Seq<char>) -> bool {
    exists|i: int| #![trigger values[i]] 0 <= i < values.len() && values[i]@ == v
}

/// A boolean input value that is on.
pub open spec fn is_true_value(v: Seq<char>) -> bool {
    eq_ignore_ascii_case_seq(trim_seq(v, CharClass::Whitespace), "true"@)
}

/// Whether the value `v` of an input of type `t` turns the input on.
pub open spec fn field_on(t: ControlFieldType, v: Seq<char>) -> bool {
    match t {
        ControlFieldType::Boolean => is_true_value(v),
        ControlFieldType::Exact(values) => is_listed(values@, v),
        ControlFieldType::FreeString => true,
    }
}

/// Whether the test `t` holds for the literal inputs `with`.
pub open spec fn input_test_holds(t: InputTest, with: Seq<(&str, &str)>) -> bool {
    let on = match block_lookup(with, t.field_name@) {
        Some(v) => field_on(t.field_type, v),
        None => t.enabled_by_default,
    };
    if t.negated {
        !on
    } else {
        on
    }
}

/// The step uses action `a` with literal inputs under which `a` relies on a
/// manual credential. Owners and repositories are compared without ASCII case.
pub open spec fn uses_with_manual_credential(body: StepBody, a: KnownAction) -> bool {
    match body {
        StepBody::Uses { uses: Some(u), with: Block::Literal(with) } => {
            &&& eq_ignore_ascii_case_seq(u.owner@, a.owner@)
            &&& eq_ignore_ascii_case_seq(u.repo@, a.repo@)
            &&& forall|i: int| 0 <= i < a.all_of@.len() ==> #[trigger] input_test_holds(a.all_of@[i], with@)
        },
        _ => false,
    }
}

/// How severe a finding is.
#[derive(Clone, Copy, Debug, PartialEq, Eq, Structural)]
pub enum Severity {
    Unknown,
    Informational,
    Low,
    Medium,
    High,
}

/// How sure the audit is of a finding.
#[derive(Clone, Copy, Debug, PartialEq, Eq, Structural)]
pub enum Confidence {
    Unknown,
    Low,
    Medium,
    High,
}

/// The document element a location starts from: the step, its job, or the
/// workflow.
#[derive(Clone, Copy, Debug, PartialEq, Eq, Structural)]
pub enum Scope {
    Step,
    Job,
    Workflow,
}

/// The keys that lead from a location's scope to what it points at.
#[derive(Clone, Copy, Debug, PartialEq, Eq)]
pub enum Route {
    /// The scope itself.
    Whole,
    /// Its `uses:` key.
    Uses,
    /// Its `run:` key.
    Run,
    /// The keys of a known action's input, e.g. `with`, `password`.
    Keys(&'static [&'static str]),
    /// The variable of its `env:` block, i.e. the keys `env` and the name.
    Env(&'static str),
}

/// A place in a workflow that a finding points at.
#[derive(Clone, Copy, Debug, PartialEq, Eq)]
pub struct Location<'doc> {
    pub scope: Scope,
    pub route: Route,
    /// The piece of the value at the route that is meant, if not all of it.
    pub subfeature: Option<Subfeature<'doc>>,
    pub annotation: Option<&'static str>,
    pub primary: bool,
    pub hidden: bool,
    /// Only the key is meant, not its value.
    pub key_only: bool,
}

/// The annotation of a step that a finding is about.
pub const THIS_STEP: &'static str = "this step";

/// The annotation of a command that a finding is about.
pub const THIS_COMMAND: &'static str = "this command";

/// The annotation of a manually configured credential.
pub const USES_MANUAL_CREDENTIAL: &'static str = "uses a manually-configured credential instead of Trusted Publishing";

/// A plain location with the given scope and route: neither primary nor
/// hidden, with no subfeature and no annotation.
pub open spec fn plain_location<'a>(scope: Scope, route: Route) -> Location<'a> {
    Location { scope, route, subfeature: None, annotation: None, primary: false, hidden: false, key_only: false }
}

/// The hidden location of the whole step.
pub open spec fn hidden_step_location<'a>() -> Location<'a> {
    Location { hidden: true, ..plain_location(Scope::Step, Route::Whole) }
}

/// The location of a variable of an `env:` block, annotated as a manual
/// credential.
pub open spec fn env_location<'a>(scope: Scope, var: &'static str) -> Location<'a> {
    Location { annotation: Some(USES_MANUAL_CREDENTIAL), ..plain_location(scope, Route::Env(var)) }
}

/// The location of an inline token assignment in the step's `run:` script,
/// annotated as a manual credential.
pub open spec fn inline_location<'a>(inline: Subfeature<'a>) -> Location<'a> {
    Location {
        subfeature: Some(inline),
        annotation: Some(USES_MANUAL_CREDENTIAL),
        ..plain_location(Scope::Step, Route::Run)
    }
}

/// A finding of the audit. Every finding is informational and of high
/// confidence; its locations are `finding_locations`.
#[derive(Clone, Copy, Debug)]
pub enum Finding<'doc> {
    /// A known publishing action is configured with a manual credential,
    /// which the `keys` of the step locate.
    Action { keys: &'static [&'static str] },
    /// A `run:` command publishes; `credential` is where the manual
    /// credential it uses is set, when the audit found one.
    Command { command: Subfeature<'doc>, credential: Option<Location<'doc>> },
}

/// The locations of a finding, in order. Both kinds start with the hidden
/// step. An action finding then points at the step's `uses:` ("this step")
/// and at the input holding the credential; a command finding at the
/// `run:` key ("this step"), at the command in the script ("this command"),
/// and at its credential when it has one.
pub open spec fn finding_locations<'a>(f: Finding<'a>) -> Seq<Location<'a>> {
    match f {
        Finding::Action { keys } => seq![
            hidden_step_location(),
            Location { primary: true, annotation: Some(THIS_STEP), ..plain_location(Scope::Step, Route::Uses) },
            Location {
                primary: true,
                annotation: Some(USES_MANUAL_CREDENTIAL),
                ..plain_location(Scope::Step, Route::Keys(keys))
            },
        ],
        Finding::Command { command, credential } => {
            let common = seq![
                hidden_step_location(),
                Location { key_only: true, annotation: Some(THIS_STEP), ..plain_location(Scope::Step, Route::Run) },
                Location {
                    primary: true,
                    subfeature: Some(command),
                    annotation: Some(THIS_COMMAND),
                    ..plain_location(Scope::Step, Route::Run)
                },
            ];
            match credential {
                Some(l) => common.push(l),
                None => common,
            }
        },
    }
}

impl<'doc> Finding<'doc> {
    /// The severity of the finding: informational.
    pub fn severity(&self) -> (r: Severity)
        ensures
            r == Severity::Informational,
    {
        Severity::Informational
    }

    /// The confidence of the finding: high.
    pub fn confidence(&self) -> (r: Confidence)
        ensures
            r == Confidence::High,
    {
        Confidence::High
    }

    /// The locations of the finding, in order.
    pub fn locations(&self) -> (r: Vec<Location<'doc>>)
        ensures
            r@ == finding_locations(*self),
    {
        let hidden = Location {
            scope: Scope::Step,
            route: Route::Whole,
            subfeature: None,
            annotation: None,
            primary: false,
            hidden: true,
            key_only: false,
        };
        match self {
            Finding::Action { keys } => {
                let uses = Location {
                    scope: Scope::Step,
                    route: Route::Uses,
                    subfeature: None,
                    annotation: Some(THIS_STEP),
                    primary: true,
                    hidden: false,
                    key_only: false,
                };
                let inputs = Location {
                    scope: Scope::Step,
                    route: Route::Keys(*keys),
                    subfeature: None,
                    annotation: Some(USES_MANUAL_CREDENTIAL),
                    primary: true,
                    hidden: false,
                    key_only: false,
                };
                let r = vec![hidden, uses, inputs];
                assert(r@ =~= finding_locations(*self));
                r
            },
            Finding::Command { command, credential } => {
                let run_key = Location {
                    scope: Scope::Step,
                    route: Route::Run,
                    subfeature: None,
                    annotation: Some(THIS_STEP),
                    primary: false,
                    hidden: false,
                    key_only: true,
                };
                let in_script = Location {
                    scope: Scope::Step,
                    route: Route::Run,
                    subfeature: Some(*command),
                    annotation: Some(THIS_COMMAND),
                    primary: true,
                    hidden: false,
                    key_only: false,
                };
                let mut r = vec![hidden, run_key, in_script];
                if let Some(l) = credential {
                    r.push(*l);
                }
                assert(r@ =~= finding_locations(*self));
                r
            },
        }
    }
}

/// The findings for the first `n` actions of `actions` that `body` uses
/// with a manual credential, in the order of `actions`.
pub open spec fn action_findings_upto(body: StepBody, actions: Seq<KnownAction>, n: int) -> Seq<Finding>
    decreases n,
{
    if n <= 0 {
        Seq::empty()
    } else {
        let before = action_findings_upto(body, actions, n - 1);
        if uses_with_manual_credential(body, actions[n - 1]) {
            before.push(Finding::Action { keys: actions[n - 1].keys })
        } else {
            before
        }
    }
}

/// The findings for every action of `actions` that `body` uses with a
/// manual credential.
pub open spec fn action_findings(body: StepBody, actions: Seq<KnownAction>) -> Seq<Finding> {
    action_findings_upto(body, actions, actions.len() as int)
}

const KNOWN_RUBY_TP_INDICES: [&'static str; 1] = ["https://rubygems.org"];

const KNOWN_PYTHON_TP_INDICES: [&'static str; 2] = [
    "https://upload.pypi.org/legacy/",
    "https://test.pypi.org/legacy/",
];

const KNOWN_NPMJS_TP_INDICES: [&'static str; 2] = ["https://registry.npmjs.org", "https://registry.npmjs.org/"];

/// The input `key` is set.
pub open spec fn is_set(with: Seq<(&str, &str)>, key: Seq<char>) -> bool {
    block_lookup(with, key) is Some
}

/// The input `key` is unset, or set to one of `values`.
pub open spec fn unset_or_one_of(with: Seq<(&str, &str)>, key: Seq<char>, values: Seq<Seq<char>>) -> bool {
    match block_lookup(with, key) {
        Some(v) => values.contains(v),
        None => true,
    }
}

/// The input `key` is set to a true value.
pub open spec fn is_set_true(with: Seq<(&str, &str)>, key: Seq<char>) -> bool {
    match block_lookup(with, key) {
        Some(v) => is_true_value(v),
        None => false,
    }
}

/// The input `key` is set to a value that is not true.
pub open spec fn is_set_not_true(with: Seq<(&str, &str)>, key: Seq<char>) -> bool {
    match block_lookup(with, key) {
        Some(v) => !is_true_value(v),
        None => false,
    }
}

/// The upload URLs of PyPI and TestPyPI.
pub open spec fn python_indices() -> Seq<Seq<char>> {
    seq!["https://upload.pypi.org/legacy/"@, "https://test.pypi.org/legacy/"@]
}

/// `pypa/gh-action-pypi-publish` with a `password`, while publishing to
/// PyPI or TestPyPI (by either spelling of the repository URL input).
pub open spec fn pypi_password_condition(with: Seq<(&str, &str)>) -> bool {
    &&& is_set(with, "password"@)
    &&& unset_or_one_of(with, "repository-url"@, python_indices())
    &&& unset_or_one_of(with, "repository_url"@, python_indices())
}

/// `rubygems/release-gem` with `setup-trusted-publisher` set to a value
/// that is not true.
pub open spec fn release_gem_condition(with: Seq<(&str, &str)>) -> bool {
    is_set_not_true(with, "setup-trusted-publisher"@)
}

/// `rubygems/configure-rubygems-credentials` with an `api-token`, while
/// publishing to rubygems.org.
pub open spec fn rubygems_token_condition(with: Seq<(&str, &str)>) -> bool {
    &&& is_set(with, "api-token"@)
    &&& unset_or_one_of(with, "gem-server"@, seq!["https://rubygems.org"@])
}

/// `actions/setup-node` for npmjs with `always-auth` on.
pub open spec fn setup_node_condition(with: Seq<(&str, &str)>) -> bool {
    &&& unset_or_one_of(
        with,
        "registry-url"@,
        seq!["https://registry.npmjs.org"@, "https://registry.npmjs.org/"@],
    )
    &&& is_set_true(with, "always-auth"@)
}

/// All the tests of `tests` hold for the inputs `with`.
pub open spec fn all_hold(tests: Seq<InputTest>, with: Seq<(&str, &str)>) -> bool {
    forall|i: int| 0 <= i < tests.len() ==> #[trigger] input_test_holds(tests[i], with)
}

/// The known action at position `i` is `owner/repo`, points at `keys`, and
/// its tests mean `condition`.
pub open spec fn known_action_is(
    a: KnownAction,
    owner: Seq<char>,
    repo: Seq<char>,
    keys: Seq<Seq<char>>,
    condition: spec_fn(Seq<(&str, &str)>) -> bool,
) -> bool {
    &&& a.owner@ == owner
    &&& a.repo@ == repo
    &&& a.keys@.len() == keys.len()
    &&& forall|k: int| 0 <= k < keys.len() ==> #[trigger] a.keys@[k]@ == keys[k]
    &&& forall|with: Seq<(&str, &str)>| #[trigger] all_hold(a.all_of@, with) == condition(with)
}

/// The table of the actions that support Trusted Publishing: PyPI's
/// publishing action, RubyGems' release and credentials actions, and
/// `setup-node`, in that order, each with what shows a manual credential.
pub open spec fn known_actions_ok(a: Seq<KnownAction>) -> bool {
    &&& a.len() == 4
    &&& known_action_is(
        a[0],
        "pypa"@,
        "gh-action-pypi-publish"@,
        seq!["with"@, "password"@],
        |w| pypi_password_condition(w),
    )
    &&& known_action_is(
        a[1],
        "rubygems"@,
        "release-gem"@,
        seq!["with"@, "setup-trusted-publisher"@],
        |w| release_gem_condition(w),
    )
    &&& known_action_is(
        a[2],
        "rubygems"@,
        "configure-rubygems-credentials"@,
        seq!["with"@, "api-token"@],
        |w| rubygems_token_condition(w),
    )
    &&& known_action_is(
        a[3],
        "actions"@,
        "setup-node"@,
        seq!["with"@, "always-auth"@],
        |w| setup_node_condition(w),
    )
}

/// The actions that support Trusted Publishing, with the inputs that show a
/// manually configured credential.
pub fn known_trusted_publishing_actions() -> (r: Vec<KnownAction>)
    ensures
        known_actions_ok(r@),
        r@.len() == 4,
        known_action_is(
            r@[0],
            "pypa"@,
            "gh-action-pypi-publish"@,
            seq!["with"@, "password"@],
            |w| pypi_password_condition(w),
        ),
        known_action_is(
            r@[1],
            "rubygems"@,
            "release-gem"@,
            seq!["with"@, "setup-trusted-publisher"@],
            |w| release_gem_condition(w),
        ),
        known_action_is(
            r@[2],
            "rubygems"@,
            "configure-rubygems-credentials"@,
            seq!["with"@, "api-token"@],
            |w| rubygems_token_condition(w),
        ),
        known_action_is(
            r@[3],
            "actions"@,
            "setup-node"@,
            seq!["with"@, "always-auth"@],
            |w| setup_node_condition(w),
        ),
{
    let mut actions: Vec<KnownAction> = Vec::new();
    // A PyPI password, while publishing to PyPI or TestPyPI. Each
    // repository-URL test holds when its input is unset, so both must hold:
    // requiring only one would hold when the other input is set elsewhere.
    let mut pypi: Vec<InputTest> = Vec::new();
    pypi.push(
        InputTest {
            field_name: "password",
            field_type: ControlFieldType::FreeString,
            enabled_by_default: false,
            negated: false,
        },
    );
    pypi.push(
        InputTest {
            field_name: "repository-url",
            field_type: ControlFieldType::Exact(&KNOWN_PYTHON_TP_INDICES),
            enabled_by_default: true,
            negated: false,
        },
    );
    pypi.push(
        InputTest {
            field_name: "repository_url",
            field_type: ControlFieldType::Exact(&KNOWN_PYTHON_TP_INDICES),
            enabled_by_default: true,
            negated: false,
        },
    );
    proof {
        let py = KNOWN_PYTHON_TP_INDICES@;
        assert(py =~= seq!["https://upload.pypi.org/legacy/", "https://test.pypi.org/legacy/"]);
        assert forall|v: Seq<char>| is_listed(py, v) == python_indices().contains(v) by {
            if python_indices().contains(v) {
                let k = choose|k: int| 0 <= k < 2 && python_indices()[k] == v;
                assert(py[k]@ == v);
            }
        }
        assert forall|with: Seq<(&str, &str)>| #[trigger] all_hold(pypi@, with) == pypi_password_condition(with) by {
            assert(input_test_holds(pypi@[0], with) == is_set(with, "password"@));
            assert(input_test_holds(pypi@[1], with) == unset_or_one_of(with, "repository-url"@, python_indices()));
            assert(input_test_holds(pypi@[2], with) == unset_or_one_of(with, "repository_url"@, python_indices()));
        }
    }
    actions.push(
        KnownAction {
            owner: "pypa",
            repo: "gh-action-pypi-publish",
            all_of: pypi,
            keys: &["with", "password"],
        },
    );
    // `release-gem` with its Trusted Publisher setup turned off.
    let mut release: Vec<InputTest> = Vec::new();
    release.push(
        InputTest {
            field_name: "setup-trusted-publisher",
            field_type: ControlFieldType::Boolean,
            enabled_by_default: true,
            negated: true,
        },
    );
    proof {
        assert forall|with: Seq<(&str, &str)>| #[trigger] all_hold(release@, with) == release_gem_condition(with) by {
            assert(input_test_holds(release@[0], with) == release_gem_condition(with));
        }
    }
    actions.push(
        KnownAction {
            owner: "rubygems",
            repo: "release-gem",
            all_of: release,
            keys: &["with", "setup-trusted-publisher"],
        },
    );
    // An API token for rubygems.org.
    let mut gems: Vec<InputTest> = Vec::new();
    gems.push(
        InputTest {
            field_name: "api-token",
            field_type: ControlFieldType::FreeString,
            enabled_by_default: false,
            negated: false,
        },
    );
    gems.push(
        InputTest {
            field_name: "gem-server",
            field_type: ControlFieldType::Exact(&KNOWN_RUBY_TP_INDICES),
            enabled_by_default: true,
            negated: false,
        },
    );
    proof {
        let rb = KNOWN_RUBY_TP_INDICES@;
        assert(rb =~= seq!["https://rubygems.org"]);
        assert forall|v: Seq<char>| is_listed(rb, v) == seq!["https://rubygems.org"@].contains(v) by {
            let urls = seq!["https://rubygems.org"@];
            if urls.contains(v) {
                let k = choose|k: int| 0 <= k < 1 && urls[k] == v;
                assert(rb[k]@ == v);
            }
            if is_listed(rb, v) {
                let k = choose|k: int| 0 <= k < rb.len() && rb[k]@ == v;
                assert(urls[k] == v);
            }
        }
        assert forall|with: Seq<(&str, &str)>| #[trigger] all_hold(gems@, with) == rubygems_token_condition(with) by {
            assert(input_test_holds(gems@[0], with) == is_set(with, "api-token"@));
            assert(input_test_holds(gems@[1], with) == unset_or_one_of(
                with,
                "gem-server"@,
                seq!["https://rubygems.org"@],
            ));
        }
    }
    actions.push(
        KnownAction {
            owner: "rubygems",
            repo: "configure-rubygems-credentials",
            all_of: gems,
            keys: &["with", "api-token"],
        },
    );
    // `setup-node` for npmjs with `always-auth`, which means a manual token.
    let mut node: Vec<InputTest> = Vec::new();
    node.push(
        InputTest {
            field_name: "registry-url",
            field_type: ControlFieldType::Exact(&KNOWN_NPMJS_TP_INDICES),
            enabled_by_default: true,
            negated: false,
        },
    );
    node.push(
        InputTest {
            field_name: "always-auth",
            field_type: ControlFieldType::Boolean,
            enabled_by_default: false,
            negated: false,
        },
    );
    proof {
        let np = KNOWN_NPMJS_TP_INDICES@;
        let npm_urls = seq!["https://registry.npmjs.org"@, "https://registry.npmjs.org/"@];
        assert(np =~= seq!["https://registry.npmjs.org", "https://registry.npmjs.org/"]);
        assert forall|v: Seq<char>| is_listed(np, v) == npm_urls.contains(v) by {
            if npm_urls.contains(v) {
                let k = choose|k: int| 0 <= k < 2 && npm_urls[k] == v;
                assert(np[k]@ == v);
            }
        }
        assert forall|with: Seq<(&str, &str)>| #[trigger] all_hold(node@, with) == setup_node_condition(with) by {
            assert(input_test_holds(node@[0], with) == unset_or_one_of(with, "registry-url"@, npm_urls));
            assert(input_test_holds(node@[1], with) == is_set_true(with, "always-auth"@));
        }
    }
    actions.push(
        KnownAction {
            owner: "actions",
            repo: "setup-node",
            all_of: node,
            keys: &["with", "always-auth"],
        },
    );
    actions
}


fn is_true_text(v: &str) -> (r: bool)
    ensures
        r == is_true_value(v@),
{
    eq_ignore_ascii_case(trim_class(v, &CharClass::Whitespace), "true")
}

fn field_is_on(t: &ControlFieldType, v: &str) -> (r: bool)
    ensures
        r == field_on(*t, v@),
{
    match *t {
        ControlFieldType::Boolean => is_true_text(v),
        ControlFieldType::Exact(values) => {
            let n = values.len();
            let mut i: usize = 0;
            while i < n
                invariant
                    *t == ControlFieldType::Exact(values),
                    n == values@.len(),
                    i <= n,
                    forall|j: int| 0 <= j < i ==> values@[j]@ != v@,
                decreases n - i,
            {
                if str_eq(values[i], v) {
                    assert(0 <= i < values@.len() && values@[i as int]@ == v@);
                    return true;
                }
                i = i + 1;
            }
            false
        },
        ControlFieldType::FreeString => true,
    }
}

fn input_test_holds_for(t: &InputTest, with: &[(&str, &str)]) -> (r: bool)
    ensures
        r == input_test_holds(*t, with@),
{
    let on = match lookup(with, t.field_name) {
        Some(v) => field_is_on(&t.field_type, v),
        None => t.enabled_by_default,
    };
    if t.negated {
        !on
    } else {
        on
    }
}

fn all_tests_hold(tests: &[InputTest], with: &[(&str, &str)]) -> (r: bool)
    ensures
        r == forall|i: int| 0 <= i < tests@.len() ==> #[trigger] input_test_holds(tests@[i], with@),
{
    let n = tests.len();
    let mut i: usize = 0;
    while i < n
        invariant
            n == tests@.len(),
            i <= n,
            forall|j: int| 0 <= j < i ==> #[trigger] input_test_holds(tests@[j], with@),
        decreases n - i,
    {
        if !input_test_holds_for(&tests[i], with) {
            return false;
        }
        i = i + 1;
    }
    true
}


// ---------------------------------------------------------------------------
// Registries configured by earlier steps, and where a token comes from
// ---------------------------------------------------------------------------

/// The action is `actions/setup-node`, by ASCII case-insensitive owner and
/// repository.
pub open spec fn is_setup_node(u: RepositoryUses) -> bool {
    eq_ignore_ascii_case_seq(u.owner@, "actions"@) && eq_ignore_ascii_case_seq(u.repo@, "setup-node"@)
}

/// The registry that a `setup-node` step with these inputs configures: the
/// kind of its `registry-url`, or unknown when that is unset or the inputs
/// are an expression.
pub open spec fn setup_node_registry_of_inputs(with: Block) -> RegistryKind {
    match with {
        Block::Literal(kv) => match block_lookup(kv@, "registry-url"@) {
            Some(v) => registry_kind_of(v),
            None => RegistryKind::Unknown,
        },
        Block::Expression => RegistryKind::Unknown,
    }
}

/// The registry that the last `setup-node` step among the first `n` steps
/// of `prior` configures; unknown when there is none.
pub open spec fn setup_node_registry_upto(prior: Seq<StepBody>, n: int) -> RegistryKind
    decreases n,
{
    if n <= 0 {
        RegistryKind::Unknown
    } else {
        match prior[n - 1] {
            StepBody::Uses { uses: Some(u), with } => if is_setup_node(u) {
                setup_node_registry_of_inputs(with)
            } else {
                setup_node_registry_upto(prior, n - 1)
            },
            _ => setup_node_registry_upto(prior, n - 1),
        }
    }
}

/// The registry that the last `setup-node` step of `prior` configures.
pub open spec fn setup_node_registry_of(prior: Seq<StepBody>) -> RegistryKind {
    setup_node_registry_upto(prior, prior.len() as int)
}

/// The first JavaScript token variable, in the order `NODE_AUTH_TOKEN`,
/// `NPM_TOKEN`, `YARN_NPM_AUTH_TOKEN`, that a literal `env:` block sets.
pub open spec fn token_var_in(env: Block) -> Option<&'static str> {
    match env {
        Block::Literal(kv) => if block_lookup(kv@, "NODE_AUTH_TOKEN"@) is Some {
            Some("NODE_AUTH_TOKEN")
        } else if block_lookup(kv@, "NPM_TOKEN"@) is Some {
            Some("NPM_TOKEN")
        } else if block_lookup(kv@, "YARN_NPM_AUTH_TOKEN"@) is Some {
            Some("YARN_NPM_AUTH_TOKEN")
        } else {
            None
        },
        Block::Expression => None,
    }
}

/// Where a JavaScript token reaches the step through `env:`: the step's own
/// block first, then the job's, then the workflow's; the location is the
/// variable in that block, annotated as a manual credential.
pub open spec fn env_credential_of<'a>(step: Step) -> Option<Location<'a>> {
    match token_var_in(step.env) {
        Some(v) => Some(env_location(Scope::Step, v)),
        None => match token_var_in(step.job_env) {
            Some(v) => Some(env_location(Scope::Job, v)),
            None => match token_var_in(step.workflow_env) {
                Some(v) => Some(env_location(Scope::Workflow, v)),
                None => None,
            },
        },
    }
}

/// Where the token of a JavaScript publishing command comes from: an inline
/// assignment in front of the command before any `env:` block.
pub open spec fn manual_auth_of<'a>(step: Step<'a>, inline: Option<Subfeature<'a>>) -> Option<Location<'a>> {
    match inline {
        Some(s) => Some(inline_location(s)),
        None => env_credential_of(step),
    }
}

/// The candidate publishes somewhere other than npmjs: by its own registry,
/// or, when it names none, by the registry that `setup-node` configured.
pub open spec fn uses_non_npmjs(c: PublishCommandCandidate, setup_node_registry: RegistryKind) -> bool {
    c.registry == Some(RegistryKind::NonNpmjs) || (c.registry is None && setup_node_registry
        == RegistryKind::NonNpmjs)
}

/// The finding, if any, for the publishing command `c` of a `run:` step.
/// Without `id-token: write` every publishing command is reported. With it,
/// commands whose publisher takes the permission as Trusted Publishing are
/// not; a JavaScript command is reported, with its credential, when it
/// publishes to npmjs (or an unknown registry) and a token reaches it; `bun
/// publish`, which cannot use Trusted Publishing, is always reported.
pub open spec fn command_finding_of<'a>(c: PublishCommandCandidate<'a>, step: Step<'a>) -> Option<Finding<'a>> {
    if !step.has_id_token {
        Some(Finding::Command { command: c.command, credential: None })
    } else {
        match c.kind {
            PublishCommandKind::Other => None,
            PublishCommandKind::JsTrustedPublishing => if uses_non_npmjs(
                c,
                setup_node_registry_of(step.prior_steps@),
            ) {
                None
            } else {
                match manual_auth_of(step, c.inline_token_assignment) {
                    Some(l) => Some(Finding::Command { command: c.command, credential: Some(l) }),
                    None => None,
                }
            },
            PublishCommandKind::Bun => Some(Finding::Command { command: c.command, credential: None }),
        }
    }
}

/// The findings for the first `n` candidates of `cs`, in order.
pub open spec fn command_findings_upto<'a>(cs: Seq<PublishCommandCandidate<'a>>, n: int, step: Step<'a>) -> Seq<Finding<'a>>
    decreases n,
{
    if n <= 0 {
        Seq::empty()
    } else {
        let before = command_findings_upto(cs, n - 1, step);
        match command_finding_of(cs[n - 1], step) {
            Some(f) => before.push(f),
            None => before,
        }
    }
}

/// The findings for the publishing commands `cs` of a `run:` step.
pub open spec fn command_findings_of<'a>(cs: Seq<PublishCommandCandidate<'a>>, step: Step<'a>) -> Seq<Finding<'a>> {
    command_findings_upto(cs, cs.len() as int, step)
}

fn token_var_in_block(env: &Block) -> (r: Option<&'static str>)
    ensures
        r == token_var_in(*env),
{
    match env {
        Block::Literal(kv) => {
            if lookup(kv.as_slice(), "NODE_AUTH_TOKEN").is_some() {
                Some("NODE_AUTH_TOKEN")
            } else if lookup(kv.as_slice(), "NPM_TOKEN").is_some() {
                Some("NPM_TOKEN")
            } else if lookup(kv.as_slice(), "YARN_NPM_AUTH_TOKEN").is_some() {
                Some("YARN_NPM_AUTH_TOKEN")
            } else {
                None
            }
        },
        Block::Expression => None,
    }
}

impl UseTrustedPublishing {
    /// The findings for the known publishing actions that a step uses with
    /// a manual credential.
    pub fn process_step<'doc>(&self, body: &StepBody<'doc>) -> (r: Vec<Finding<'doc>>)
        ensures
            known_actions_ok(self.known_actions()),
            r@ == action_findings(*body, self.known_actions()),
    {
        proof {
            use_type_invariant(self);
        }
        let actions = &self.known_actions;
        let mut findings: Vec<Finding<'doc>> = Vec::new();
        let n = actions.len();
        let mut i: usize = 0;
        while i < n
            invariant
                n == actions@.len(),
                actions@ == self.known_actions(),
                i <= n,
                findings@ == action_findings_upto(*body, actions@, i as int),
            decreases n - i,
        {
            let action = &actions[i];
            let matched = match body {
                StepBody::Uses { uses: Some(u), with: Block::Literal(with) } => {
                    eq_ignore_ascii_case(u.owner, action.owner) && eq_ignore_ascii_case(
                        u.repo,
                        action.repo,
                    ) && all_tests_hold(action.all_of.as_slice(), with.as_slice())
                },
                _ => false,
            };
            if matched {
                findings.push(Finding::Action { keys: action.keys });
            }
            i = i + 1;
        }
        findings
    }

    /// The findings for the known publishing actions that a step of a
    /// composite action uses with a manual credential.
    pub fn audit_composite_step<'doc>(&self, body: &StepBody<'doc>) -> (r: Vec<Finding<'doc>>)
        ensures
            r@ == action_findings(*body, self.known_actions()),
    {
        self.process_step(body)
    }

    /// The registry that the last `actions/setup-node` step before the
    /// current one configures.
    pub fn prior_setup_node_registry_kind(prior: &[StepBody]) -> (r: RegistryKind)
        ensures
            r == setup_node_registry_of(prior@),
    {
        let mut registry = RegistryKind::Unknown;
        let n = prior.len();
        let mut i: usize = 0;
        while i < n
            invariant
                n == prior@.len(),
                i <= n,
                registry == setup_node_registry_upto(prior@, i as int),
            decreases n - i,
        {
            match &prior[i] {
                StepBody::Uses { uses: Some(u), with } => {
                    if eq_ignore_ascii_case(u.owner, "actions") && eq_ignore_ascii_case(u.repo, "setup-node") {
                        registry = match with {
                            Block::Literal(kv) => match lookup(kv.as_slice(), "registry-url") {
                                Some(v) => Self::registry_kind(v),
                                None => RegistryKind::Unknown,
                            },
                            Block::Expression => RegistryKind::Unknown,
                        };
                    }
                },
                _ => {},
            }
            i = i + 1;
        }
        registry
    }

    /// Where a JavaScript token reaches the step through its own, its job's
    /// or its workflow's `env:`.
    pub fn find_js_token_env_var_in_step<'doc>(step: &Step) -> (r: Option<Location<'doc>>)
        ensures
            r == env_credential_of::<'doc>(*step),
    {
        if let Some(var) = token_var_in_block(&step.env) {
            return Some(Self::env_var_location(Scope::Step, var));
        }
        if let Some(var) = token_var_in_block(&step.job_env) {
            return Some(Self::env_var_location(Scope::Job, var));
        }
        if let Some(var) = token_var_in_block(&step.workflow_env) {
            return Some(Self::env_var_location(Scope::Workflow, var));
        }
        None
    }

    fn env_var_location<'doc>(scope: Scope, var: &'static str) -> (r: Location<'doc>)
        ensures
            r == env_location::<'doc>(scope, var),
    {
        Location {
            scope,
            route: Route::Env(var),
            subfeature: None,
            annotation: Some(USES_MANUAL_CREDENTIAL),
            primary: false,
            hidden: false,
            key_only: false,
        }
    }

    /// Where the token of a JavaScript publishing command comes from.
    pub fn js_manual_auth_location<'doc>(step: &Step<'doc>, inline_token_assignment: Option<Subfeature<'doc>>) -> (r:
        Option<Location<'doc>>)
        ensures
            r == manual_auth_of(*step, inline_token_assignment),
    {
        match inline_token_assignment {
            Some(inline) => Some(
                Location {
                    scope: Scope::Step,
                    route: Route::Run,
                    subfeature: Some(inline),
                    annotation: Some(USES_MANUAL_CREDENTIAL),
                    primary: false,
                    hidden: false,
                    key_only: false,
                },
            ),
            None => Self::find_js_token_env_var_in_step(step),
        }
    }

    /// Whether the candidate publishes somewhere other than npmjs.
    pub fn candidate_uses_non_npmjs_registry(candidate: &PublishCommandCandidate, setup_node_registry: RegistryKind) -> (r: bool)
        ensures
            r == uses_non_npmjs(*candidate, setup_node_registry),
    {
        candidate.registry == Some(RegistryKind::NonNpmjs) || (candidate.registry.is_none()
            && setup_node_registry == RegistryKind::NonNpmjs)
    }

    /// The finding for a publishing command, with the location of its
    /// credential when there is one: informational, of high confidence, at
    /// the locations that `finding_locations` gives.
    pub fn publish_command_finding<'doc>(command: Subfeature<'doc>, credential_location: Option<Location<'doc>>) -> (r: Finding<'doc>)
        ensures
            r == (Finding::Command { command, credential: credential_location }),
    {
        Finding::Command { command, credential: credential_location }
    }

    /// The findings for the publishing commands of a `run:` step.
    pub fn command_findings<'doc>(step: &Step<'doc>, candidates: &[PublishCommandCandidate<'doc>]) -> (r: Vec<Finding<'doc>>)
        ensures
            r@ == command_findings_of(candidates@, *step),
    {
        let mut findings: Vec<Finding<'doc>> = Vec::new();
        let n = candidates.len();
        if !step.has_id_token {
            let mut i: usize = 0;
            while i < n
                invariant
                    n == candidates@.len(),
                    !step.has_id_token,
                    i <= n,
                    findings@ == command_findings_upto(candidates@, i as int, *step),
                decreases n - i,
            {
                findings.push(Self::publish_command_finding(candidates[i].command, None));
                i = i + 1;
            }
        } else {
            let setup_node_registry = Self::prior_setup_node_registry_kind(step.prior_steps.as_slice());
            let mut i: usize = 0;
            while i < n
                invariant
                    n == candidates@.len(),
                    step.has_id_token,
                    setup_node_registry == setup_node_registry_of(step.prior_steps@),
                    i <= n,
                    findings@ == command_findings_upto(candidates@, i as int, *step),
                decreases n - i,
            {
                let candidate = &candidates[i];
                match candidate.kind {
                    PublishCommandKind::Other => {},
                    PublishCommandKind::JsTrustedPublishing => {
                        if !Self::candidate_uses_non_npmjs_registry(candidate, setup_node_registry) {
                            if let Some(credential_location) = Self::js_manual_auth_location(
                                step,
                                candidate.inline_token_assignment,
                            ) {
                                findings.push(
                                    Self::publish_command_finding(candidate.command, Some(credential_location)),
                                );
                            }
                        }
                    },
                    PublishCommandKind::Bun => {
                        findings.push(Self::publish_command_finding(candidate.command, None));
                    },
                }
                i = i + 1;
            }
        }
        findings
    }
}


/// The shell of a `run:` step: the one it names, or Bash.
pub open spec fn run_shell_of(shell: Option<&str>) -> Seq<char> {
    match shell {
        Some(s) => s@,
        None => "bash"@,
    }
}

impl UseTrustedPublishing {
    /// The findings for a workflow step: the known publishing actions it
    /// uses with a manual credential, and, for a `run:` step, the publishing
    /// commands of its script that the rules of `command_findings_of` report.
    pub fn audit_step<'doc>(&self, step: &Step<'doc>) -> (r: Result<Vec<Finding<'doc>>, AuditError>)
        ensures
            step.body is Uses ==> (r matches Ok(fs) && fs@ == action_findings(step.body, self.known_actions())),
            step.body matches StepBody::Run { shell, .. } && dialect_of(shell_program(run_shell_of(shell)))
                is None ==> (r matches Ok(fs) && fs@ == action_findings(step.body, self.known_actions())),
            step.body matches StepBody::Run { run, shell } ==> (dialect_of(shell_program(run_shell_of(shell)))
                is Some ==> (r is Ok <==> script_readable(is_bourne_shell(run_shell_of(shell)), run))),
            r matches Err(e) ==> (step.body matches StepBody::Run { run, shell } && e == script_error(
                is_bourne_shell(run_shell_of(shell)),
                run,
            )),
            r matches Ok(fs) ==> (step.body matches StepBody::Run { run, shell } ==> (dialect_of(
                shell_program(run_shell_of(shell)),
            ) is Some ==> exists|ms: Seq<CommandMatch<'doc>>|
                script_read_from(ms, is_bourne_shell(run_shell_of(shell)), run) && fs@ == action_findings(
                    step.body,
                    self.known_actions(),
                ) + command_findings_of(#[trigger] candidates_of(ms, is_bourne_shell(run_shell_of(shell))), *step))),
    {
        let mut findings = self.process_step(&step.body);
        if let StepBody::Run { run, shell: named } = &step.body {
            let shell: &str = match named {
                Some(s) => s,
                None => "bash",
            };
            assert(shell@ == run_shell_of(*named));
            let candidates = self.trusted_publishing_command_candidates(run, shell)?;
            let mut more = Self::command_findings(step, candidates.as_slice());
            let ghost before = findings@;
            findings.append(&mut more);
            proof {
                let b = is_bourne_shell(shell@);
                if dialect_of(shell_program(shell@)) is None {
                    assert(candidates@ =~= candidates_of(Seq::<CommandMatch<'doc>>::empty(), b));
                    assert(findings@ == before + command_findings_of(
                        candidates_of(Seq::<CommandMatch<'doc>>::empty(), b),
                        *step,
                    ));
                    assert(findings@ =~= before);
                } else {
                    let ms = choose|ms: Seq<CommandMatch<'doc>>|
                        script_read_from(ms, b, *run) && candidates@ == #[trigger] candidates_of(ms, b);
                    assert(findings@ == before + command_findings_of(candidates_of(ms, b), *step));
                }
            }
        }
        Ok(findings)
    }
}


/// The step uses `actions/setup-node`.
pub open spec fn is_setup_node_step(body: StepBody) -> bool {
    body matches StepBody::Uses { uses: Some(u), .. } && is_setup_node(u)
}

/// The registry configured by the last `setup-node` step among the first `n`
/// is that of the step at `k`, when no later one among them is a
/// `setup-node` step.
proof fn lemma_setup_node_upto(prior: Seq<StepBody>, k: int, n: int)
    requires
        0 <= k < n <= prior.len(),
        is_setup_node_step(prior[k]),
        forall|j: int| k < j < n ==> !is_setup_node_step(#[trigger] prior[j]),
    ensures
        setup_node_registry_upto(prior, n) == setup_node_registry_of_inputs(prior[k]->with),
    decreases n,
{
    if n - 1 > k {
        assert(!is_setup_node_step(prior[n - 1]));
        lemma_setup_node_upto(prior, k, n - 1);
    }
}

/// The registry that earlier `setup-node` steps configure is the one the
/// last of them configures, whatever came before it.
pub proof fn lemma_last_setup_node_step_decides(prior: Seq<StepBody>, k: int)
    requires
        0 <= k < prior.len(),
        is_setup_node_step(prior[k]),
        forall|j: int| k < j < prior.len() ==> !is_setup_node_step(#[trigger] prior[j]),
    ensures
        setup_node_registry_of(prior) == setup_node_registry_of_inputs(prior[k]->with),
{
    lemma_setup_node_upto(prior, k, prior.len() as int);
}

/// Without any earlier `setup-node` step, the configured registry is unknown.
pub proof fn lemma_no_setup_node_step_means_unknown(prior: Seq<StepBody>)
    requires
        forall|j: int| 0 <= j < prior.len() ==> !is_setup_node_step(#[trigger] prior[j]),
    ensures
        setup_node_registry_of(prior) == RegistryKind::Unknown,
{
    lemma_no_setup_node_upto(prior, prior.len() as int);
}

proof fn lemma_no_setup_node_upto(prior: Seq<StepBody>, n: int)
    requires
        0 <= n <= prior.len(),
        forall|j: int| 0 <= j < n ==> !is_setup_node_step(#[trigger] prior[j]),
    ensures
        setup_node_registry_upto(prior, n) == RegistryKind::Unknown,
    decreases n,
{
    if n > 0 {
        assert(!is_setup_node_step(prior[n - 1]));
        lemma_no_setup_node_upto(prior, n - 1);
    }
}

proof fn lemma_findings_upto_without_id_token(cs: Seq<PublishCommandCandidate>, n: int, step: Step)
    requires
        0 <= n <= cs.len(),
        !step.has_id_token,
    ensures
        command_findings_upto(cs, n, step).len() == n,
        forall|i: int|
            0 <= i < n ==> #[trigger] command_findings_upto(cs, n, step)[i] == (Finding::Command {
                command: cs[i].command,
                credential: None,
            }),
    decreases n,
{
    if n > 0 {
        lemma_findings_upto_without_id_token(cs, n - 1, step);
        let before = command_findings_upto(cs, n - 1, step);
        assert forall|i: int| 0 <= i < n - 1 implies #[trigger] command_findings_upto(cs, n, step)[i]
            == before[i] by {}
    }
}

/// Without `id-token: write`, every publishing command of the script is
/// reported, in order, and without a credential location.
pub proof fn lemma_without_id_token_every_command_is_reported(cs: Seq<PublishCommandCandidate>, step: Step)
    requires
        !step.has_id_token,
    ensures
        command_findings_of(cs, step).len() == cs.len(),
        forall|i: int|
            0 <= i < cs.len() ==> #[trigger] command_findings_of(cs, step)[i] == (Finding::Command {
                command: cs[i].command,
                credential: None,
            }),
{
    lemma_findings_upto_without_id_token(cs, cs.len() as int, step);
}

proof fn lemma_findings_upto_at_most(cs: Seq<PublishCommandCandidate>, n: int, step: Step)
    requires
        0 <= n <= cs.len(),
    ensures
        command_findings_upto(cs, n, step).len() <= n,
    decreases n,
{
    if n > 0 {
        lemma_findings_upto_at_most(cs, n - 1, step);
    }
}

/// Granting `id-token: write` never adds findings: a step with the
/// permission gets at most as many as the same step without it.
pub proof fn lemma_id_token_never_adds_findings(cs: Seq<PublishCommandCandidate>, step: Step)
    requires
        step.has_id_token,
    ensures
        command_findings_of(cs, step).len() <= command_findings_of(
            cs,
            Step { has_id_token: false, ..step },
        ).len(),
{
    lemma_findings_upto_at_most(cs, cs.len() as int, step);
    lemma_without_id_token_every_command_is_reported(cs, Step { has_id_token: false, ..step });
}

proof fn lemma_findings_upto_trusted(cs: Seq<PublishCommandCandidate>, n: int, step: Step)
    requires
        0 <= n <= cs.len(),
        step.has_id_token,
        forall|i: int| 0 <= i < n ==> (#[trigger] cs[i]).kind == PublishCommandKind::Other,
    ensures
        command_findings_upto(cs, n, step).len() == 0,
    decreases n,
{
    if n > 0 {
        assert(cs[n - 1].kind == PublishCommandKind::Other);
        lemma_findings_upto_trusted(cs, n - 1, step);
    }
}

/// With `id-token: write`, publishing commands whose publisher takes the
/// permission as Trusted Publishing (`cargo`, `twine`, `gem`, ...) are
/// never reported.
pub proof fn lemma_id_token_spares_trusted_publishers(cs: Seq<PublishCommandCandidate>, step: Step)
    requires
        step.has_id_token,
        forall|i: int| 0 <= i < cs.len() ==> (#[trigger] cs[i]).kind == PublishCommandKind::Other,
    ensures
        command_findings_of(cs, step).len() == 0,
{
    lemma_findings_upto_trusted(cs, cs.len() as int, step);
}

proof fn lemma_findings_upto_grow(cs: Seq<PublishCommandCandidate>, m: int, n: int, step: Step, f: Finding)
    requires
        0 <= m <= n <= cs.len(),
        command_findings_upto(cs, m, step).contains(f),
    ensures
        command_findings_upto(cs, n, step).contains(f),
    decreases n,
{
    if n > m {
        lemma_findings_upto_grow(cs, m, n - 1, step, f);
        let before = command_findings_upto(cs, n - 1, step);
        let k = choose|k: int| 0 <= k < before.len() && before[k] == f;
        assert(command_findings_upto(cs, n, step)[k] == f);
    }
}

/// `bun publish` cannot use Trusted Publishing, so it is reported whether or
/// not the job has `id-token: write`.
pub proof fn lemma_bun_publish_always_reported(cs: Seq<PublishCommandCandidate>, step: Step, i: int)
    requires
        0 <= i < cs.len(),
        cs[i].kind == PublishCommandKind::Bun,
    ensures
        command_findings_of(cs, step).contains(Finding::Command { command: cs[i].command, credential: None }),
{
    let f = Finding::Command { command: cs[i].command, credential: None };
    let at = command_findings_upto(cs, i + 1, step);
    assert(at.last() == f);
    assert(at.contains(f));
    lemma_findings_upto_grow(cs, i + 1, cs.len() as int, step, f);
}

/// The `setup-node` steps of `prior`, in order.
pub open spec fn setup_node_steps<'a>(prior: Seq<StepBody<'a>>) -> Seq<StepBody<'a>> {
    prior.filter(|b: StepBody<'a>| is_setup_node_step(b))
}

/// The registry configured by the first `m` steps depends on those steps
/// alone.
proof fn lemma_setup_node_upto_prefix(p: Seq<StepBody>, q: Seq<StepBody>, m: int)
    requires
        0 <= m <= p.len(),
        m <= q.len(),
        forall|j: int| 0 <= j < m ==> p[j] == q[j],
    ensures
        setup_node_registry_upto(p, m) == setup_node_registry_upto(q, m),
    decreases m,
{
    if m > 0 {
        assert(p[m - 1] == q[m - 1]);
        lemma_setup_node_upto_prefix(p, q, m - 1);
    }
}

/// The registry configured by `prior` is that of the last of its
/// `setup-node` steps, or unknown when it has none.
proof fn lemma_registry_of_setup_node_steps(prior: Seq<StepBody>)
    ensures
        setup_node_registry_of(prior) == if setup_node_steps(prior).len() == 0 {
            RegistryKind::Unknown
        } else {
            setup_node_registry_of_inputs(setup_node_steps(prior).last()->with)
        },
    decreases prior.len(),
{
    reveal(Seq::filter);
    if prior.len() > 0 {
        let d = prior.drop_last();
        lemma_registry_of_setup_node_steps(d);
        lemma_setup_node_upto_prefix(prior, d, d.len() as int);
        assert(setup_node_steps(prior) == if is_setup_node_step(prior.last()) {
            setup_node_steps(d).push(prior.last())
        } else {
            setup_node_steps(d)
        });
        assert(prior[prior.len() - 1] == prior.last());
    }
}

/// The registry that a step sees depends only on the `setup-node` steps
/// before it, in their order: earlier steps that do not use `setup-node` can
/// be added, removed or changed without changing it.
pub proof fn lemma_only_setup_node_steps_matter(prior: Seq<StepBody>, other: Seq<StepBody>)
    requires
        setup_node_steps(prior) == setup_node_steps(other),
    ensures
        setup_node_registry_of(prior) == setup_node_registry_of(other),
{
    lemma_registry_of_setup_node_steps(prior);
    lemma_registry_of_setup_node_steps(other);
}

/// A literal `env:` block yields a JavaScript token variable exactly when it
/// sets one of `NODE_AUTH_TOKEN`, `NPM_TOKEN` and `YARN_NPM_AUTH_TOKEN`. The
/// variable yielded is one the block sets, and no variable before it in that
/// order is set. An expression yields none.
pub proof fn lemma_token_var_is_first_set(env: Block)
    ensures
        env is Expression ==> token_var_in(env) is None,
        env matches Block::Literal(kv) ==> (token_var_in(env) is Some <==> exists|name: Seq<char>|
            is_js_token_var(name) && #[trigger] block_lookup(kv@, name) is Some),
        env matches Block::Literal(kv) ==> (token_var_in(env) matches Some(v) ==> {
            &&& is_js_token_var(v@)
            &&& block_lookup(kv@, v@) is Some
            &&& v@ != "NODE_AUTH_TOKEN"@ ==> block_lookup(kv@, "NODE_AUTH_TOKEN"@) is None
            &&& v@ == "YARN_NPM_AUTH_TOKEN"@ ==> block_lookup(kv@, "NPM_TOKEN"@) is None
        }),
{
    reveal_strlit("NODE_AUTH_TOKEN");
    reveal_strlit("NPM_TOKEN");
    reveal_strlit("YARN_NPM_AUTH_TOKEN");
    assert("NODE_AUTH_TOKEN"@[1] != "NPM_TOKEN"@[1]);
    assert("NODE_AUTH_TOKEN"@[0] != "YARN_NPM_AUTH_TOKEN"@[0]);
    assert("NPM_TOKEN"@[0] != "YARN_NPM_AUTH_TOKEN"@[0]);
}

/// When the step's, the job's or the workflow's `env:` block literally sets
/// a JavaScript token variable, a credential location is found in `env:`:
/// in the step's block when that one sets it, and otherwise no further out
/// than the block that sets it.
pub proof fn lemma_env_token_is_found(step: Step, name: Seq<char>)
    requires
        is_js_token_var(name),
    ensures
        step.env matches Block::Literal(kv) ==> (block_lookup(kv@, name) is Some ==> (env_credential_of::<'static>(step) matches Some(l)
            && l.scope == Scope::Step)),
        step.job_env matches Block::Literal(kv) ==> (block_lookup(kv@, name) is Some ==> (env_credential_of::<'static>(step) matches Some(l)
            && l.scope != Scope::Workflow)),
        step.workflow_env matches Block::Literal(kv) ==> (block_lookup(kv@, name) is Some
            ==> env_credential_of::<'static>(step) is Some),
{
    lemma_token_var_is_first_set(step.env);
    lemma_token_var_is_first_set(step.job_env);
    lemma_token_var_is_first_set(step.workflow_env);
}

/// After the `setup-node` step at `k`, with no later one, the registry is
/// that of its `registry-url` input: the kind of the URL when its inputs are
/// literal and set it, and unknown when they do not set it or are an
/// expression.
pub proof fn lemma_setup_node_registry_is_its_url(prior: Seq<StepBody>, k: int)
    requires
        0 <= k < prior.len(),
        is_setup_node_step(prior[k]),
        forall|j: int| k < j < prior.len() ==> !is_setup_node_step(#[trigger] prior[j]),
    ensures
        prior[k]->with matches Block::Literal(kv) ==> setup_node_registry_of(prior) == match block_lookup(
            kv@,
            "registry-url"@,
        ) {
            Some(v) => registry_kind_of(v),
            None => RegistryKind::Unknown,
        },
        prior[k]->with is Expression ==> setup_node_registry_of(prior) == RegistryKind::Unknown,
{
    lemma_setup_node_upto(prior, k, prior.len() as int);
}

/// Some step before the `n`-th literally sets a `setup-node` step's
/// `registry-url` to another registry than npmjs when the registry
/// configured by the first `n` steps is such a one.
proof fn lemma_non_npmjs_upto(prior: Seq<StepBody>, n: int)
    requires
        0 <= n <= prior.len(),
        setup_node_registry_upto(prior, n) == RegistryKind::NonNpmjs,
    ensures
        exists|k: int|
            0 <= k < n && is_setup_node_step(#[trigger] prior[k]) && (prior[k]->with matches Block::Literal(kv)
                && block_lookup(kv@, "registry-url"@) matches Some(v) && registry_kind_of(v) == RegistryKind::NonNpmjs),
    decreases n,
{
    if is_setup_node_step(prior[n - 1]) {
        assert(is_setup_node_step(prior[n - 1]));
    } else {
        lemma_non_npmjs_upto(prior, n - 1);
        let k = choose|k: int|
            0 <= k < n - 1 && is_setup_node_step(#[trigger] prior[k]) && (prior[k]->with matches Block::Literal(kv)
                && block_lookup(kv@, "registry-url"@) matches Some(v) && registry_kind_of(v) == RegistryKind::NonNpmjs);
        assert(0 <= k < n);
    }
}

/// The registry is another than npmjs only when an earlier `setup-node`
/// step literally sets its `registry-url` to a URL of another registry.
pub proof fn lemma_non_npmjs_needs_a_registry_url(prior: Seq<StepBody>)
    ensures
        setup_node_registry_of(prior) == RegistryKind::NonNpmjs ==> exists|k: int|
            0 <= k < prior.len() && is_setup_node_step(#[trigger] prior[k]) && (prior[k]->with matches Block::Literal(kv)
                && block_lookup(kv@, "registry-url"@) matches Some(v) && registry_kind_of(v) == RegistryKind::NonNpmjs),
{
    if setup_node_registry_of(prior) == RegistryKind::NonNpmjs {
        lemma_non_npmjs_upto(prior, prior.len() as int);
    }
}

/// Under `id-token: write`, a JavaScript publishing command that names no
/// registry, and that a token reaches, is reported with that token's
/// location unless an earlier `setup-node` step literally sets its
/// `registry-url` to another registry than npmjs.
pub proof fn lemma_js_command_with_token_is_reported(c: PublishCommandCandidate, step: Step)
    requires
        step.has_id_token,
        c.kind == PublishCommandKind::JsTrustedPublishing,
        c.registry is None,
        manual_auth_of(step, c.inline_token_assignment) is Some,
        forall|k: int|
            0 <= k < step.prior_steps@.len() && is_setup_node_step(#[trigger] step.prior_steps@[k]) ==> !(
            step.prior_steps@[k]->with matches Block::Literal(kv) && block_lookup(kv@, "registry-url"@) matches Some(v)
                && registry_kind_of(v) == RegistryKind::NonNpmjs),
    ensures
        command_finding_of(c, step) == Some(
            Finding::Command { command: c.command, credential: manual_auth_of(step, c.inline_token_assignment) },
        ),
{
    lemma_non_npmjs_needs_a_registry_url(step.prior_steps@);
}

} // verus!
