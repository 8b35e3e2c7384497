use trusted_publishing::audit::{
    Block, Confidence, Finding, Location, RepositoryUses, Route, Scope, Severity, Step, StepBody, THIS_COMMAND, THIS_STEP,
    USES_MANUAL_CREDENTIAL,
};
use trusted_publishing::candidates::Subfeature;
use trusted_publishing::candidates::{CommandMatch, CommandPart};
use trusted_publishing::publish::PublishCommandKind;
use trusted_publishing::registry::RegistryKind;
use trusted_publishing::shell::normalize_shell;
use trusted_publishing::text::text_between;
use trusted_publishing::UseTrustedPublishing;

fn kind(args: &[&str]) -> Option<PublishCommandKind> {
    UseTrustedPublishing::publish_command_kind(args[0], &args[1..])
}

#[test]
fn publishing_kinds_follow_the_tool() {
    assert_eq!(kind(&["npm", "publish"]), Some(PublishCommandKind::JsTrustedPublishing));
    assert_eq!(kind(&["pnpm", "publish"]), Some(PublishCommandKind::JsTrustedPublishing));
    assert_eq!(kind(&["yarn", "publish"]), Some(PublishCommandKind::JsTrustedPublishing));
    assert_eq!(kind(&["bunx", "npm@11", "publish"]), Some(PublishCommandKind::JsTrustedPublishing));
    assert_eq!(kind(&["bun", "publish"]), Some(PublishCommandKind::Bun));
    assert_eq!(kind(&["cargo", "publish"]), Some(PublishCommandKind::Other));
    assert_eq!(kind(&["dotnet", "nuget", "push", "x.nupkg"]), Some(PublishCommandKind::Other));
    assert_eq!(kind(&["make", "publish"]), None);
    assert_eq!(kind(&["python3", "-m", "twine", "upload"]), Some(PublishCommandKind::Other));
}

#[test]
fn dry_run_only_counts_after_the_publishing_verb() {
    // `--dry-run` before `publish` is not read by the rule.
    assert_eq!(kind(&["cargo", "--dry-run", "publish"]), Some(PublishCommandKind::Other));
    assert_eq!(kind(&["cargo", "publish", "-p", "foo", "-n"]), None);
    // Yarn v1's `publish` does not look at `--dry-run`.
    assert_eq!(kind(&["yarn", "publish", "--dry-run"]), Some(PublishCommandKind::JsTrustedPublishing));
    // `uv run` is decided by `run` coming first.
    assert_eq!(kind(&["uv", "run", "publish", "twine", "upload"]), Some(PublishCommandKind::Other));
    assert_eq!(kind(&["uv", "run", "publish"]), None);
}

#[test]
fn trailing_dry_run_never_publishes() {
    for tool in ["cargo", "poetry", "npm", "pnpm", "bun"] {
        assert!(kind(&[tool, "publish"]).is_some());
        assert_eq!(kind(&[tool, "publish", "--dry-run"]), None, "{tool}");
    }
    assert_eq!(kind(&["bunx", "npm", "publish", "--dry-run"]), None);
}

#[test]
fn appended_args_keep_verbs_only_publishers() {
    let base: &[&[&str]] = &[
        &["twine", "upload"],
        &["gem", "push", "a.gem"],
        &["pipx", "run", "twine", "upload"],
        &["bundle", "exec", "gem", "push"],
        &["uvx", "twine", "upload"],
    ];
    for args in base {
        let mut longer: Vec<&str> = args.to_vec();
        longer.push("--dry-run");
        longer.push("extra");
        assert_eq!(kind(args), Some(PublishCommandKind::Other));
        assert_eq!(kind(&longer), kind(args), "{args:?}");
    }
}

#[test]
fn registry_kinds() {
    assert_eq!(UseTrustedPublishing::registry_kind("https://registry.npmjs.org"), RegistryKind::Npmjs);
    assert_eq!(UseTrustedPublishing::registry_kind("https://registry.npmjs.org/"), RegistryKind::Npmjs);
    assert_eq!(UseTrustedPublishing::registry_kind(" 'https://registry.npmjs.org//' "), RegistryKind::Npmjs);
    assert_eq!(UseTrustedPublishing::registry_kind("\"https://registry.npmjs.org\""), RegistryKind::Npmjs);
    assert_eq!(UseTrustedPublishing::registry_kind("https://npm.pkg.github.com"), RegistryKind::NonNpmjs);
    assert_eq!(UseTrustedPublishing::registry_kind("${{ vars.REGISTRY }}"), RegistryKind::Unknown);
    assert_eq!(UseTrustedPublishing::registry_kind("$REGISTRY"), RegistryKind::Unknown);
    assert_eq!(UseTrustedPublishing::registry_kind(""), RegistryKind::Unknown);
    assert_eq!(UseTrustedPublishing::registry_kind(" \"\" "), RegistryKind::Unknown);
    assert_eq!(UseTrustedPublishing::registry_kind("\u{a0}https://registry.npmjs.org\u{3000}"), RegistryKind::Npmjs);
}

#[test]
fn registry_options_of_publishing_commands() {
    assert_eq!(
        UseTrustedPublishing::publish_registry_kind("npm", &["publish", "--registry=https://npm.pkg.github.com"]),
        Some(RegistryKind::NonNpmjs)
    );
    assert_eq!(
        UseTrustedPublishing::publish_registry_kind("pnpm", &["publish", "--registry", "https://registry.npmjs.org/"]),
        Some(RegistryKind::Npmjs)
    );
    assert_eq!(
        UseTrustedPublishing::publish_registry_kind("yarn", &["npm", "publish", "'--registry=https://x.example'"]),
        Some(RegistryKind::NonNpmjs)
    );
    // The first option decides.
    assert_eq!(
        UseTrustedPublishing::publish_registry_kind(
            "bunx",
            &["npm", "publish", "--registry=https://registry.npmjs.org", "--registry=https://x.example"]
        ),
        Some(RegistryKind::Npmjs)
    );
    assert_eq!(UseTrustedPublishing::publish_registry_kind("npm", &["publish", "--registry"]), None);
    assert_eq!(UseTrustedPublishing::publish_registry_kind("npm", &["publish"]), None);
    assert_eq!(
        UseTrustedPublishing::publish_registry_kind("cargo", &["publish", "--registry=https://x.example"]),
        None
    );
}

#[test]
fn configured_registries() {
    assert_eq!(
        UseTrustedPublishing::npm_config_registry_kind("npm", &["config", "set", "registry", "https://x.example"]),
        Some(RegistryKind::NonNpmjs)
    );
    assert_eq!(
        UseTrustedPublishing::npm_config_registry_kind("pnpm", &["config", "set", "registry=https://registry.npmjs.org"]),
        Some(RegistryKind::Npmjs)
    );
    assert_eq!(
        UseTrustedPublishing::npm_config_registry_kind("npm", &["config", "set", "\"registry=$REG\""]),
        Some(RegistryKind::Unknown)
    );
    assert_eq!(UseTrustedPublishing::npm_config_registry_kind("npm", &["config", "set", "registry"]), None);
    assert_eq!(UseTrustedPublishing::npm_config_registry_kind("npm", &["config", "get", "registry"]), None);
    assert_eq!(UseTrustedPublishing::npm_config_registry_kind("yarn", &["config", "set", "registry", "x"]), None);
    assert_eq!(UseTrustedPublishing::npm_config_registry_kind("npm", &["config", "set", "color", "x"]), None);
}

#[test]
fn inline_assignment_of_parts() {
    let parts = [
        CommandPart { is_variable_assignment: true, name: Some("FOO"), start: 0, text: "FOO=1" },
        CommandPart { is_variable_assignment: false, name: Some("NPM_TOKEN"), start: 6, text: "NPM_TOKEN" },
        CommandPart { is_variable_assignment: true, name: Some("NPM_TOKEN"), start: 16, text: "NPM_TOKEN=x" },
        CommandPart { is_variable_assignment: true, name: Some("NODE_AUTH_TOKEN"), start: 28, text: "NODE_AUTH_TOKEN=y" },
    ];
    let found = UseTrustedPublishing::find_inline_js_token_assignment(&parts).unwrap();
    assert_eq!(found.after, 16);
    assert_eq!(found.fragment, "NPM_TOKEN=x");
    assert!(UseTrustedPublishing::find_inline_js_token_assignment(&parts[..2]).is_none());
}

#[test]
fn candidates_take_the_registry_configured_before_them() {
    let matches = vec![
        CommandMatch { cmd: "npm", args: vec!["publish"], span_start: 0, span_text: "npm publish", parts: vec![] },
        CommandMatch {
            cmd: "npm",
            args: vec!["config", "set", "registry", "https://x.example"],
            span_start: 12,
            span_text: "npm config set registry https://x.example",
            parts: vec![],
        },
        CommandMatch { cmd: "npm", args: vec!["publish"], span_start: 54, span_text: "npm publish", parts: vec![] },
        CommandMatch {
            cmd: "npm",
            args: vec!["publish", "--registry=https://registry.npmjs.org"],
            span_start: 66,
            span_text: "npm publish --registry=https://registry.npmjs.org",
            parts: vec![],
        },
        CommandMatch { cmd: "cargo", args: vec!["build"], span_start: 120, span_text: "cargo build", parts: vec![] },
    ];
    let cs = UseTrustedPublishing::candidates_from_matches(&matches, true);
    assert_eq!(cs.len(), 3);
    assert_eq!(cs[0].registry, None);
    assert_eq!(cs[1].registry, Some(RegistryKind::NonNpmjs));
    assert_eq!(cs[1].command.after, 54);
    assert_eq!(cs[2].registry, Some(RegistryKind::Npmjs));
}

#[test]
fn candidates_from_scripts() {
    let sut = UseTrustedPublishing::new().expect("audit");
    let run = "npm config set registry https://npm.pkg.github.com\nnpm publish\ncargo publish --dry-run\ntwine upload dist/*";
    let cs = sut.trusted_publishing_command_candidates(run, "bash").unwrap();
    assert_eq!(cs.len(), 2);
    assert_eq!(cs[0].command.fragment, "npm publish");
    assert_eq!(cs[0].command.after, 51);
    assert_eq!(cs[0].registry, Some(RegistryKind::NonNpmjs));
    assert_eq!(cs[0].kind, PublishCommandKind::JsTrustedPublishing);
    assert_eq!(cs[1].command.fragment, "twine upload dist/*");
    assert_eq!(cs[1].kind, PublishCommandKind::Other);

    // Shells are named by their program.
    let cs = sut.trusted_publishing_command_candidates("cargo publish", "/usr/bin/bash -e {0}").unwrap();
    assert_eq!(cs.len(), 1);
    // Unknown shells are not read.
    let cs = sut.trusted_publishing_command_candidates("cargo publish", "python").unwrap();
    assert!(cs.is_empty());
    // PowerShell scripts are read too, without inline assignments.
    let cs = sut.trusted_publishing_command_candidates("npm publish --access public", "pwsh").unwrap();
    assert_eq!(cs.len(), 1);
    assert_eq!(cs[0].inline_token_assignment, None);
}

#[test]
fn shell_programs() {
    assert_eq!(normalize_shell("bash"), "bash");
    assert_eq!(normalize_shell("bash -e {0}"), "bash");
    assert_eq!(normalize_shell("/usr/bin/zsh"), "zsh");
    assert_eq!(normalize_shell(""), "");
}

fn env_location(scope: Scope, var: &'static str) -> Location<'static> {
    Location {
        scope,
        route: Route::Env(var),
        subfeature: None,
        annotation: Some(USES_MANUAL_CREDENTIAL),
        primary: false,
        hidden: false,
        key_only: false,
    }
}

fn inline_location(inline: Subfeature<'_>) -> Location<'_> {
    Location {
        scope: Scope::Step,
        route: Route::Run,
        subfeature: Some(inline),
        annotation: Some(USES_MANUAL_CREDENTIAL),
        primary: false,
        hidden: false,
        key_only: false,
    }
}

fn literal<'a>(kv: &[(&'a str, &'a str)]) -> Block<'a> {
    Block::Literal(kv.to_vec())
}

fn run_step<'a>(run: &'a str, has_id_token: bool, env: Block<'a>, prior: Vec<StepBody<'a>>) -> Step<'a> {
    Step {
        body: StepBody::Run { run, shell: None },
        env,
        job_env: Block::Expression,
        workflow_env: literal(&[]),
        has_id_token,
        prior_steps: prior,
    }
}

fn uses_step<'a>(owner: &'a str, repo: &'a str, with: Block<'a>) -> StepBody<'a> {
    StepBody::Uses { uses: Some(RepositoryUses { owner, repo }), with }
}

#[test]
fn known_actions_with_manual_credentials() {
    let sut = UseTrustedPublishing::new().expect("audit");
    let keys_of = |body: &StepBody| -> Vec<Vec<&'static str>> {
        sut.process_step(body)
            .into_iter()
            .map(|f| match f {
                Finding::Action { keys } => keys.to_vec(),
                Finding::Command { .. } => panic!("unexpected command finding"),
            })
            .collect()
    };
    let pypi = uses_step("pypa", "gh-action-pypi-publish", literal(&[("password", "${{ secrets.PYPI }}")]));
    assert_eq!(keys_of(&pypi), vec![vec!["with", "password"]]);
    let test_pypi = uses_step(
        "PyPA",
        "gh-action-pypi-publish",
        literal(&[("password", "x"), ("repository-url", "https://test.pypi.org/legacy/")]),
    );
    assert_eq!(keys_of(&test_pypi).len(), 1);
    let private = uses_step(
        "pypa",
        "gh-action-pypi-publish",
        literal(&[("password", "x"), ("repository_url", "https://pypi.example/")]),
    );
    assert!(keys_of(&private).is_empty());
    let trusted = uses_step("pypa", "gh-action-pypi-publish", literal(&[]));
    assert!(keys_of(&trusted).is_empty());
    let gem = uses_step("rubygems", "release-gem", literal(&[("setup-trusted-publisher", "false")]));
    assert_eq!(keys_of(&gem), vec![vec!["with", "setup-trusted-publisher"]]);
    let gem_default = uses_step("rubygems", "release-gem", literal(&[]));
    assert!(keys_of(&gem_default).is_empty());
    let creds = uses_step(
        "rubygems",
        "configure-rubygems-credentials",
        literal(&[("api-token", "x"), ("gem-server", "https://rubygems.org")]),
    );
    assert_eq!(keys_of(&creds), vec![vec!["with", "api-token"]]);
    let node = uses_step(
        "actions",
        "setup-node",
        literal(&[("registry-url", "https://registry.npmjs.org/"), ("always-auth", " TRUE ")]),
    );
    assert_eq!(keys_of(&node), vec![vec!["with", "always-auth"]]);
    let node_off = uses_step("actions", "setup-node", literal(&[("always-auth", "false")]));
    assert!(keys_of(&node_off).is_empty());
    let dynamic = uses_step("pypa", "gh-action-pypi-publish", Block::Expression);
    assert!(keys_of(&dynamic).is_empty());
    assert_eq!(sut.audit_composite_step(&pypi).len(), 1);
}

#[test]
fn last_setup_node_step_decides_the_registry() {
    let prior = vec![
        uses_step("actions", "setup-node", literal(&[("registry-url", "https://registry.npmjs.org")])),
        uses_step("actions", "checkout", literal(&[])),
        uses_step("Actions", "Setup-Node", literal(&[("registry-url", "https://npm.pkg.github.com")])),
        StepBody::Run { run: "ls", shell: None },
    ];
    assert_eq!(UseTrustedPublishing::prior_setup_node_registry_kind(&prior), RegistryKind::NonNpmjs);
    assert_eq!(UseTrustedPublishing::prior_setup_node_registry_kind(&prior[..2]), RegistryKind::Npmjs);
    assert_eq!(UseTrustedPublishing::prior_setup_node_registry_kind(&prior[1..2]), RegistryKind::Unknown);
    let dynamic = vec![uses_step("actions", "setup-node", Block::Expression)];
    assert_eq!(UseTrustedPublishing::prior_setup_node_registry_kind(&dynamic), RegistryKind::Unknown);
}

#[test]
fn token_locations() {
    let step = Step {
        body: StepBody::Run { run: "npm publish", shell: None },
        env: literal(&[("FOO", "1")]),
        job_env: literal(&[("YARN_NPM_AUTH_TOKEN", "x"), ("NPM_TOKEN", "y")]),
        workflow_env: literal(&[("NODE_AUTH_TOKEN", "z")]),
        has_id_token: true,
        prior_steps: vec![],
    };
    assert_eq!(UseTrustedPublishing::find_js_token_env_var_in_step(&step), Some(env_location(Scope::Job, "NPM_TOKEN")));
    let mut only_workflow = step.clone();
    only_workflow.job_env = Block::Expression;
    assert_eq!(
        UseTrustedPublishing::find_js_token_env_var_in_step(&only_workflow),
        Some(env_location(Scope::Workflow, "NODE_AUTH_TOKEN"))
    );
    let mut none = only_workflow.clone();
    none.workflow_env = literal(&[]);
    assert!(UseTrustedPublishing::find_js_token_env_var_in_step(&none).is_none());
    let inline = Subfeature::new(3, "NPM_TOKEN=x");
    assert_eq!(UseTrustedPublishing::js_manual_auth_location(&step, Some(inline)), Some(inline_location(inline)));
    assert_eq!(
        UseTrustedPublishing::js_manual_auth_location(&step, None),
        Some(env_location(Scope::Job, "NPM_TOKEN"))
    );
}

fn command_texts<'a>(findings: &[Finding<'a>]) -> Vec<(&'a str, bool)> {
    findings
        .iter()
        .map(|f| match f {
            Finding::Command { command, credential } => (command.fragment, credential.is_some()),
            Finding::Action { .. } => panic!("unexpected action finding"),
        })
        .collect()
}

#[test]
fn run_steps_without_id_token_report_every_publishing_command() {
    let sut = UseTrustedPublishing::new().expect("audit");
    let step = run_step("cargo publish\nnpm publish\nbun publish", false, literal(&[]), vec![]);
    let findings = sut.audit_step(&step).unwrap();
    assert_eq!(
        command_texts(&findings),
        vec![("cargo publish", false), ("npm publish", false), ("bun publish", false)]
    );
}

#[test]
fn run_steps_with_id_token() {
    let sut = UseTrustedPublishing::new().expect("audit");
    // Trusted publishers pass; a JavaScript command without a token passes;
    // `bun publish` is reported.
    let step = run_step("cargo publish\nnpm publish\nbun publish", true, literal(&[]), vec![]);
    let findings = sut.audit_step(&step).unwrap();
    assert_eq!(command_texts(&findings), vec![("bun publish", false)]);

    // A token in the step's env makes the JavaScript command reported.
    let step = run_step("npm publish --provenance", true, literal(&[("NODE_AUTH_TOKEN", "x")]), vec![]);
    let findings = sut.audit_step(&step).unwrap();
    assert!(matches!(
        &findings[..],
        [Finding::Command { credential: Some(l), .. }] if *l == env_location(Scope::Step, "NODE_AUTH_TOKEN")
    ));

    // An inline token is reported at the assignment.
    let step = run_step("NPM_TOKEN=x pnpm publish", true, literal(&[]), vec![]);
    let findings = sut.audit_step(&step).unwrap();
    assert!(matches!(
        &findings[..],
        [Finding::Command { credential: Some(l), .. }]
            if l.route == Route::Run && l.subfeature.map(|s| s.fragment) == Some("NPM_TOKEN=x")
    ));

    // Publishing elsewhere than npmjs is not Trusted Publishing's business.
    let step = run_step(
        "NPM_TOKEN=x npm publish --registry=https://npm.pkg.github.com",
        true,
        literal(&[]),
        vec![],
    );
    assert!(sut.audit_step(&step).unwrap().is_empty());
    let prior = vec![uses_step("actions", "setup-node", literal(&[("registry-url", "https://npm.pkg.github.com")]))];
    let step = run_step("NPM_TOKEN=x npm publish", true, literal(&[]), prior.clone());
    assert!(sut.audit_step(&step).unwrap().is_empty());
    // An explicit npmjs registry overrides the one set up earlier.
    let step = run_step("NPM_TOKEN=x npm publish --registry https://registry.npmjs.org", true, literal(&[]), prior);
    assert_eq!(sut.audit_step(&step).unwrap().len(), 1);
}

#[test]
fn id_token_never_adds_findings() {
    let sut = UseTrustedPublishing::new().expect("audit");
    let run = "NODE_AUTH_TOKEN=x npm publish\ncargo publish\nbun publish\nyarn npm publish --dry-run";
    let with = sut.audit_step(&run_step(run, true, literal(&[]), vec![])).unwrap();
    let without = sut.audit_step(&run_step(run, false, literal(&[]), vec![])).unwrap();
    assert_eq!(with.len(), 2);
    assert_eq!(without.len(), 3);
}

#[test]
fn uses_steps_get_only_action_findings() {
    let sut = UseTrustedPublishing::new().expect("audit");
    let step = Step {
        body: uses_step("pypa", "gh-action-pypi-publish", literal(&[("password", "x")])),
        env: literal(&[("NODE_AUTH_TOKEN", "x")]),
        job_env: Block::Expression,
        workflow_env: Block::Expression,
        has_id_token: false,
        prior_steps: vec![],
    };
    let findings = sut.audit_step(&step).unwrap();
    assert!(matches!(&findings[..], [Finding::Action { keys: ["with", "password"] }]));
    let mut other_shell = run_step("cargo publish", false, literal(&[]), vec![]);
    other_shell.body = StepBody::Run { run: "cargo publish", shell: Some("cmd") };
    assert!(sut.audit_step(&other_shell).unwrap().is_empty());
}

#[test]
fn surrounding_whitespace_never_changes_a_registry_kind() {
    for registry in [
        " https://registry.npmjs.org/ ",
        "\t'https://npm.pkg.github.com'\n",
        "  ${{ vars.R }}",
        "   ",
    ] {
        assert_eq!(
            UseTrustedPublishing::registry_kind(registry),
            UseTrustedPublishing::registry_kind(registry.trim()),
            "{registry:?}"
        );
    }
}

#[test]
fn id_token_spares_trusted_publishers() {
    let sut = UseTrustedPublishing::new().expect("audit");
    let run = "cargo publish\nuv publish\ntwine upload dist/*\ngem push x.gem\ndotnet nuget push x.nupkg";
    let with = sut.audit_step(&run_step(run, true, literal(&[("NODE_AUTH_TOKEN", "x")]), vec![])).unwrap();
    assert!(with.is_empty());
    let without = sut.audit_step(&run_step(run, false, literal(&[]), vec![])).unwrap();
    assert_eq!(without.len(), 5);
}

#[test]
fn text_between_byte_offsets() {
    let s = "héllo wörld";
    assert_eq!(text_between(s, 0, 6), Some("héllo"));
    assert_eq!(text_between(s, 7, 13), Some("wörld"));
    assert_eq!(text_between(s, 2, 6), None);
    assert_eq!(text_between(s, 6, 3), None);
    assert_eq!(text_between(s, 0, 40), None);
    assert_eq!(text_between(s, 13, 13), Some(""));
}

#[test]
fn fragments_lie_at_their_offsets() {
    let sut = UseTrustedPublishing::new().expect("audit");
    let run = "echo 'ünïcode'\nNODE_AUTH_TOKEN=x npm publish\n";
    let cs = sut.trusted_publishing_command_candidates(run, "bash").unwrap();
    assert_eq!(cs.len(), 1);
    let c = &cs[0];
    assert_eq!(&run[c.command.after..c.command.after + c.command.fragment.len()], c.command.fragment);
    let inline = c.inline_token_assignment.unwrap();
    assert_eq!(inline.fragment, "NODE_AUTH_TOKEN=x");
    assert_eq!(&run[inline.after..inline.after + inline.fragment.len()], inline.fragment);
}

#[test]
fn action_findings_locations() {
    let sut = UseTrustedPublishing::new().expect("audit");
    let body = uses_step("pypa", "gh-action-pypi-publish", literal(&[("password", "${{ secrets.PYPI_TOKEN }}")]));
    let findings = sut.process_step(&body);
    assert_eq!(findings.len(), 1);
    let f = &findings[0];
    assert_eq!(f.severity(), Severity::Informational);
    assert_eq!(f.confidence(), Confidence::High);
    let ls = f.locations();
    assert_eq!(ls.len(), 3);
    assert!(ls[0].hidden && ls[0].route == Route::Whole && ls[0].scope == Scope::Step);
    assert!(ls[1].primary && ls[1].route == Route::Uses && ls[1].annotation == Some("this step"));
    assert!(ls[2].primary && ls[2].annotation == Some(USES_MANUAL_CREDENTIAL));
    assert!(matches!(ls[2].route, Route::Keys(["with", "password"])));
    assert_eq!(
        USES_MANUAL_CREDENTIAL,
        "uses a manually-configured credential instead of Trusted Publishing"
    );
}

#[test]
fn command_findings_locations() {
    let sut = UseTrustedPublishing::new().expect("audit");
    let run = "NODE_AUTH_TOKEN=${{ secrets.NPM_TOKEN }} npm publish --provenance";
    let findings = sut.audit_step(&run_step(run, true, literal(&[]), vec![])).unwrap();
    assert_eq!(findings.len(), 1);
    let f = &findings[0];
    assert_eq!(f.severity(), Severity::Informational);
    assert_eq!(f.confidence(), Confidence::High);
    let ls = f.locations();
    assert_eq!(ls.len(), 4);
    assert!(ls[0].hidden);
    assert!(ls[1].key_only && !ls[1].primary && ls[1].route == Route::Run && ls[1].annotation == Some(THIS_STEP));
    assert!(ls[2].primary && ls[2].route == Route::Run && ls[2].annotation == Some(THIS_COMMAND));
    assert_eq!(ls[2].subfeature, Some(Subfeature::new(0, run)));
    let inline = Subfeature::new(0, "NODE_AUTH_TOKEN=${{ secrets.NPM_TOKEN }}");
    assert_eq!(ls[3], inline_location(inline));

    let plain = UseTrustedPublishing::publish_command_finding(Subfeature::new(5, "cargo publish"), None);
    assert_eq!(plain.locations().len(), 3);
    assert_eq!(plain.locations()[2].subfeature, Some(Subfeature::new(5, "cargo publish")));
}

#[test]
fn inserted_args_keep_verbs_only_publishers() {
    assert_eq!(kind(&["twine", "upload", "dist/*"]), Some(PublishCommandKind::Other));
    assert_eq!(kind(&["twine", "--verbose", "upload", "-r", "pypi", "dist/*"]), Some(PublishCommandKind::Other));
    assert_eq!(kind(&["python", "-m", "twine", "upload"]), Some(PublishCommandKind::Other));
    assert_eq!(kind(&["python3", "-u", "-m", "x", "twine", "--", "upload"]), Some(PublishCommandKind::Other));
    assert_eq!(kind(&["bundle", "exec", "gem", "push", "x.gem"]), Some(PublishCommandKind::Other));
    assert_eq!(kind(&["bundle", "--quiet", "exec", "--", "gem", "-V", "push"]), Some(PublishCommandKind::Other));
}

#[test]
fn only_setup_node_steps_decide_the_registry() {
    let setup = uses_step("actions", "setup-node", literal(&[("registry-url", "https://npm.pkg.github.com")]));
    let a = vec![setup.clone()];
    let b = vec![
        StepBody::Run { run: "npm ci", shell: None },
        setup.clone(),
        uses_step("actions", "checkout", literal(&[])),
        StepBody::Run { run: "npm test", shell: None },
    ];
    assert_eq!(
        UseTrustedPublishing::prior_setup_node_registry_kind(&a),
        UseTrustedPublishing::prior_setup_node_registry_kind(&b)
    );
}

#[test]
fn unknown_shells_and_unparsable_scripts() {
    let sut = UseTrustedPublishing::new().expect("audit");
    // A script with a command that spans bytes that are not its own is never
    // produced by the parser; every real script reads.
    for script in ["", "npm publish", "if true; then cargo publish; fi", "echo $((1 + 2))"] {
        assert!(sut.trusted_publishing_command_candidates(script, "sh").is_ok());
        assert!(sut.trusted_publishing_command_candidates(script, "powershell").is_ok());
    }
    let cs = sut.trusted_publishing_command_candidates("if true; then cargo publish; fi", "zsh").unwrap();
    assert_eq!(cs.len(), 1);
    assert_eq!(cs[0].command.fragment, "cargo publish");
    assert_eq!(cs[0].command.after, 14);
}
