use trusted_publishing::UseTrustedPublishing;

#[test]
fn test_is_publish_command() {
    for (args, is_publish_command) in &[
        (&["cargo", "publish"][..], true),
        (&["cargo", "publish", "-p", "foo"][..], true),
        (&["cargo", "publish", "--dry-run"][..], false),
        (&["cargo", "publish", "-n"][..], false),
        (&["cargo", "build"][..], false),
        (&["uv", "publish"][..], true),
        (&["uv", "publish", "dist/*"][..], true),
        (&["uv", "publish", "--dry-run"][..], false),
        (&["uv", "run", "--dev", "twine", "upload"][..], true),
        (&["uv", "run", "twine", "upload"][..], true),
        (&["uv"][..], false),
        (&["uv", "sync"][..], false),
        (&["uvx", "twine", "upload"][..], true),
        (&["uvx", "twine@3.4.1", "upload"][..], true),
        (&["uvx", "twine@6.1.0", "upload"][..], true),
        (&["uvx", "twine"][..], false),
        (&["poetry", "publish"][..], true),
        (&["poetry", "publish", "--dry-run"][..], false),
        (&["hatch", "publish"][..], true),
        (&["pdm", "publish"][..], true),
        (&["twine", "upload", "dist/*"][..], true),
        (&["pipx", "run", "twine", "upload", "dist/*"][..], true),
        (
            &["pipx", "run", "twine==3.4.1", "upload", "dist/*"][..],
            true,
        ),
        (
            &["pipx", "run", "twine==6.1.0", "upload", "dist/*"][..],
            true,
        ),
        (&["python", "-m", "twine", "upload", "dist/*"][..], true),
        (&["python3.9", "-m", "twine", "upload", "dist/*"][..], true),
        (&["twine", "check", "dist/*"], false),
        (&["gem", "push", "mygem-0.1.0.gem"][..], true),
        (
            &["bundle", "exec", "gem", "push", "mygem-0.1.0.gem"][..],
            true,
        ),
        (&["npm", "publish"][..], true),
        (&["npm", "run", "publish"][..], true),
        (&["npm", "publish", "--dry-run"][..], false),
        (&["yarn", "npm"][..], false),
        (&["yarn", "npm", "publish"][..], true),
        (&["yarn", "publish"][..], true),
        (&["yarn", "npm", "publish", "--dry-run"][..], false),
        (&["pnpm", "publish"][..], true),
        (&["pnpm", "publish", "--dry-run"][..], false),
        (&["bunx", "npm", "publish"][..], true),
        (&["bunx", "npm@11", "publish"][..], true),
        (&["bunx", "npm", "publish", "--dry-run"][..], false),
        (&["bunx", "npm", "view", "lodash"][..], false),
        (&["bun", "publish"][..], true),
        (&["bun", "publish", "--access", "public"][..], true),
        (&["bun", "publish", "--dry-run"][..], false),
        (&["bun", "install"][..], false),
        (&["nuget", "push", "MyPackage.nupkg"][..], true),
        (&["nuget.exe", "push", "MyPackage.nupkg"][..], true),
        (&["dotnet", "nuget", "push", "MyPackage.nupkg"][..], true),
        (&["dotnet", "build"][..], false),
    ] {
        let cmd = args[0];
        let rest = &args[1..];
        assert_eq!(
            UseTrustedPublishing::is_publish_command(cmd, rest),
            *is_publish_command,
            "cmd: {cmd:?}, args: {args:?}"
        );
    }
}

#[test]
fn test_inline_token_assignment_detection() {
    let sut = UseTrustedPublishing::new().expect("failed to create audit");

    for (case, expected_count, expected_inline) in &[
        (
            "NODE_AUTH_TOKEN=foo npm publish --provenance",
            1,
            Some("NODE_AUTH_TOKEN=foo"),
        ),
        (
            "NODE_AUTH_TOKEN=foo yarn npm publish",
            1,
            Some("NODE_AUTH_TOKEN=foo"),
        ),
        (
            "YARN_NPM_AUTH_TOKEN=foo yarn publish",
            1,
            Some("YARN_NPM_AUTH_TOKEN=foo"),
        ),
        (
            "YARN_NPM_AUTH_TOKEN=foo npm publish",
            1,
            Some("YARN_NPM_AUTH_TOKEN=foo"),
        ),
        ("NPM_TOKEN=foo pnpm publish", 1, Some("NPM_TOKEN=foo")),
        ("NPM_TOKEN=foo yarn publish", 1, Some("NPM_TOKEN=foo")),
        ("FOO=bar npm publish --provenance", 1, None),
        ("NODE_AUTH_TOKEN=foo npm publish --dry-run", 0, None),
    ] {
        let candidates = sut
            .trusted_publishing_command_candidates(case, "bash")
            .expect("failed to extract publish candidates");

        assert_eq!(
            candidates.len(),
            *expected_count,
            "unexpected candidate count for {case:?}"
        );

        let inline = candidates
            .first()
            .and_then(|candidate| candidate.inline_token_assignment.as_ref())
            .map(|subfeature| subfeature.fragment);

        assert_eq!(inline, *expected_inline, "failed: {case:?}");
    }
}
