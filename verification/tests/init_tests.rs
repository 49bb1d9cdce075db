use nockup::context::{
    build_handlebars_context, render_template, rust_crate_name,
    toml_string_array, PackageInfo, TemplateContext, TemplateError,
};
use nockup::init::{
    commit_from_build_hash, commit_from_commit_file, commit_from_commit_file_text, commit_from_git, commit_from_pin,
    next_commit_step, next_steps, project_name, template_cache_entry, template_name, CommitSource,
    CommitStep, InitError, StepAction,
};
use nockup::template_check::template_is_renderable;
use nockup::toml_doc::TomlValue;

fn package(name: &str) -> PackageInfo {
    PackageInfo {
        name: name.to_string(),
        version: Some("0.2.0".to_string()),
        description: Some("A demo".to_string()),
        authors: Some(vec!["Ada <ada@example.com>".to_string(), "Bob \"B\"".to_string()]),
        template: None,
        template_commit: None,
    }
}

#[test]
fn crate_name_replaces_hyphens() {
    assert_eq!(rust_crate_name("my-cool-app"), "my_cool_app");
    assert_eq!(rust_crate_name("plain"), "plain");
    assert_eq!(rust_crate_name(&rust_crate_name("a-b")), "a_b");
}

#[test]
fn toml_string_array_quotes_each_value() {
    let values = vec!["a".to_string(), "b\"c".to_string(), "d\\e\n".to_string()];
    assert_eq!(toml_string_array(&values).unwrap(), "\"a\", \"b\\\"c\", \"d\\\\e\\n\"");
    assert_eq!(toml_string_array(&Vec::new()).unwrap(), "");
    let control = vec!["\u{1}".to_string()];
    assert_eq!(toml_string_array(&control).unwrap(), "\"\\u0001\"");
}

#[test]
fn handlebars_context_holds_package_fields() {
    let ctx = build_handlebars_context(&package("my-app"), "deadbeef").unwrap();
    assert_eq!(ctx.len(), 10);
    let get = |k: &str| ctx.get(k).cloned();
    assert_eq!(get("name").as_deref(), Some("my-app"));
    assert_eq!(get("project_name").as_deref(), Some("my-app"));
    assert_eq!(get("crate_name").as_deref(), Some("my_app"));
    assert_eq!(get("version").as_deref(), Some("0.2.0"));
    assert_eq!(get("description").as_deref(), Some("A demo"));
    assert_eq!(get("author").as_deref(), Some("Ada <ada@example.com>, Bob \"B\""));
    assert_eq!(get("authors").as_deref(), Some("\"Ada <ada@example.com>\", \"Bob \\\"B\\\"\""));
    assert_eq!(get("author_name").as_deref(), Some("Ada <ada@example.com>"));
    assert_eq!(get("author_email").as_deref(), Some(""));
    assert_eq!(get("nockapp_commit_hash").as_deref(), Some("deadbeef"));
}

#[test]
fn handlebars_context_defaults_missing_fields() {
    let p = PackageInfo {
        name: "solo".to_string(),
        version: None,
        description: None,
        authors: None,
        template: None,
        template_commit: None,
    };
    let ctx = build_handlebars_context(&p, "c").unwrap();
    assert_eq!(ctx.get("version").map(|s| s.as_str()), Some(""));
    assert_eq!(ctx.get("authors").map(|s| s.as_str()), Some(""));
    assert_eq!(ctx.get("author").map(|s| s.as_str()), Some(""));
    assert_eq!(ctx.get("author_name").map(|s| s.as_str()), Some(""));
}

#[test]
fn context_insert_then_get() {
    let mut ctx = TemplateContext::new();
    assert_eq!(ctx.insert("k".to_string(), "v1".to_string()), None);
    assert_eq!(ctx.insert("other".to_string(), "x".to_string()), None);
    assert_eq!(ctx.insert("k".to_string(), "v2".to_string()), Some("v1".to_string()));
    assert_eq!(ctx.get("k").map(|s| s.as_str()), Some("v2"));
    assert_eq!(ctx.get("other").map(|s| s.as_str()), Some("x"));
    assert_eq!(ctx.get("absent"), None);
    assert_eq!(ctx.len(), 2);
}

#[test]
fn template_renders_with_context() {
    let ctx = build_handlebars_context(&package("my-app"), "deadbeef").unwrap();
    let out = render_template("name = \"{{crate_name}}\" # {{nockapp_commit_hash}}", &ctx).unwrap();
    assert_eq!(out, "name = \"my_app\" # deadbeef");
    let err = render_template("{{#if}}", &ctx).unwrap_err();
    assert!(matches!(err, TemplateError::Render(_)));
}

#[test]
fn project_name_is_trimmed_and_required() {
    assert_eq!(project_name(&package("  demo  ")).unwrap(), "demo");
    let err = project_name(&package(" \t ")).unwrap_err();
    assert!(matches!(err, InitError::EmptyProjectName));
    assert_eq!(err.message(), "package.name in nockapp.toml cannot be empty");
}

#[test]
fn template_defaults_to_basic() {
    let mut p = package("x");
    assert_eq!(template_name(&p), "basic");
    p.template = Some("grpc".to_string());
    assert_eq!(template_name(&p), "grpc");
    assert_eq!(template_cache_entry("grpc", Some("abc123")), "grpc-abc123");
    assert_eq!(template_cache_entry("basic", None), "basic");
}

#[test]
fn next_steps_depend_on_template() {
    let steps = next_steps("grpc");
    assert_eq!(steps.len(), 3);
    assert_eq!(steps[0].action, StepAction::Build);
    assert_eq!(steps[1].bin.as_deref(), Some("listen"));
    assert_eq!(steps[2].bin.as_deref(), Some("talk"));
    let steps = next_steps("basic");
    assert_eq!(steps.len(), 2);
    assert_eq!(steps[1].action, StepAction::Run);
    assert_eq!(steps[1].bin, None);
    assert_eq!(StepAction::Build.word(), "build");
}

#[test]
fn commit_sources_in_order() {
    assert_eq!(commit_from_pin(Some("  abc \n")).as_deref(), Some("abc"));
    assert_eq!(commit_from_pin(Some("   ")), None);
    assert_eq!(commit_from_pin(None), None);
    let doc = TomlValue::Table(vec![(
        "commit".to_string(),
        TomlValue::Table(vec![("id".to_string(), TomlValue::String(" f00d ".to_string()))]),
    )]);
    assert_eq!(commit_from_commit_file(&doc).as_deref(), Some("f00d"));
    let bad = TomlValue::Table(vec![("commit".to_string(), TomlValue::Integer(3))]);
    assert_eq!(commit_from_commit_file(&bad), None);
    assert_eq!(commit_from_git(true, "0123abc\n").as_deref(), Some("0123abc"));
    assert_eq!(commit_from_git(false, "0123abc\n"), None);
    assert_eq!(commit_from_build_hash("unknown"), None);
    assert_eq!(commit_from_build_hash(""), None);
    assert_eq!(commit_from_build_hash(" beef ").as_deref(), Some("beef"));
    assert!(matches!(next_commit_step(CommitSource::Pinned, None), CommitStep::Consult(CommitSource::CommitFile)));
    assert!(matches!(next_commit_step(CommitSource::CommitFile, None), CommitStep::Consult(CommitSource::Git)));
    assert!(matches!(next_commit_step(CommitSource::Git, None), CommitStep::Consult(CommitSource::BuildHash)));
    assert!(matches!(next_commit_step(CommitSource::BuildHash, None), CommitStep::Unresolved));
    match next_commit_step(CommitSource::Git, Some("x".to_string())) {
        CommitStep::Found(c) => assert_eq!(c, "x"),
        _ => panic!("expected a commit"),
    }
}

#[test]
fn init_error_messages() {
    assert_eq!(
        InitError::DirectoryExists { name: "demo".to_string() }.message(),
        "Directory 'demo' already exists. Remove it or choose a different name."
    );
    assert_eq!(
        InitError::TemplateNotCached { template: "basic".to_string(), location: "/c/basic".to_string() }.message(),
        "Template 'basic' not found in cache at /c/basic.\nRun `nockup channel update` or check your template-commit hash."
    );
    assert_eq!(
        InitError::ManifestNotFound.message(),
        "No nockapp.toml found in current directory.\n\u{2192} Create one with your desired name, template, and dependencies,\n\u{2192} then run `nockup project init` again."
    );
    assert!(InitError::CommitUnresolved { template_src: "/t".to_string() }
        .message()
        .starts_with("Could not determine nockapp dependency commit for template '/t'."));
    assert_eq!(InitError::NoHomeDirectory.message(), "Could not find home directory");
}

fn nested_ifs(n: usize, inner: &str) -> String {
    let mut s = String::new();
    for _ in 0..n {
        s.push_str("{{#if true}}");
    }
    s.push_str(inner);
    for _ in 0..n {
        s.push_str("{{/if}}");
    }
    s
}

#[test]
fn inline_partials_render_unless_they_call_partials() {
    let ctx = TemplateContext::new();
    let once = "{{#*inline 'p'}}hi{{/inline}}{{> p}}";
    assert!(template_is_renderable(once));
    assert_eq!(render_template(once, &ctx).unwrap(), "hi");
    let twice = "{{#*inline \"p\"}}hi {{name}}{{/inline}}{{> p name=\"don't\"}}";
    assert_eq!(render_template(twice, &ctx).unwrap(), "hi don&#x27;t");
    let looping = "{{#*inline \"a\"}}{{> b}}{{/inline}}{{#*inline \"b\"}}{{> a}}{{/inline}}{{> a}}";
    assert!(!template_is_renderable(looping));
    assert!(matches!(render_template(looping, &ctx), Err(TemplateError::Unsupported)));
    assert!(!template_is_renderable("{{~ # *inline \"x\"}}{{ > y}}{{/inline}}"));
    assert!(matches!(render_template("{{> missing}}", &ctx), Err(TemplateError::Render(_))));
}

#[test]
fn nesting_is_bounded() {
    let ctx = TemplateContext::new();
    let deep = nested_ifs(64, "x");
    assert!(template_is_renderable(&deep));
    assert_eq!(render_template(&deep, &ctx).unwrap(), "x");
    assert!(matches!(render_template(&nested_ifs(65, "x"), &ctx), Err(TemplateError::Unsupported)));
    let mut parens = String::from("{{lookup ");
    for _ in 0..17 {
        parens.push_str("(lookup ");
    }
    parens.push_str("this");
    for _ in 0..17 {
        parens.push_str(" \"a\")");
    }
    parens.push_str(" \"b\"}}");
    assert!(!template_is_renderable(&parens));
    assert!(!template_is_renderable("{{lookup \"}}\" (lookup this \"a\")}}"));
    assert!(!template_is_renderable("{{[a}}b]}}"));
    assert!(!template_is_renderable("{{lookup '}}' (lookup this \"a\")}}"));
    assert!(!template_is_renderable("{{lookup \"\\\"}}\"}}"));
    assert!(template_is_renderable("fn main() { println!(\"{{name}}\"); }"));
    assert!(template_is_renderable("{{!-- a \" comment (( [ --}}{{{name}}}"));
    assert!(template_is_renderable("{{#if (eq a \"b\")}}y{{else}}n{{/if}}"));
}

#[test]
fn commit_file_text_is_read() {
    assert_eq!(
        commit_from_commit_file_text("commit.toml", "[commit]\nid = \" cafe \"\n").unwrap().as_deref(),
        Some("cafe")
    );
    assert_eq!(commit_from_commit_file_text("commit.toml", "[other]\nid = \"x\"\n").unwrap(), None);
    let err = commit_from_commit_file_text("/c/commit.toml", "[commit\n").unwrap_err();
    assert!(matches!(err, InitError::InvalidCommitFile { .. }));
    assert_eq!(err.message(), "Failed to parse /c/commit.toml");
}
