//! Decisions of `nockup project init`: the project's name, which cached
//! template it is made from, which nockapp commit it pins, the steps it
//! suggests afterwards, and the errors it reports.
use vstd::prelude::*;
use crate::context::PackageInfo;
use crate::text::{append_str, is_space, lemma_trimmed_bounds, lemma_trimmed_idempotent, owned, same_text, trim, trimmed};
use crate::toml_doc::{parse_toml, parsed_toml, TomlValue};

verus! {

/// Why `nockup project init` stops.
#[derive(Debug)]
pub enum InitError {
    ManifestNotFound,
    EmptyProjectName,
    DirectoryExists { name: String },
    NoHomeDirectory,
    TemplateNotCached { template: String, location: String },
    CommitUnresolved { template_src: String },
    InvalidCommitFile { path: String, error: toml::de::Error },
}

impl InitError {
    /// The text the error is reported with.
    pub open spec fn text(&self) -> Seq<char> {
        match self {
            InitError::ManifestNotFound => "No nockapp.toml found in current directory.\n\u{2192} Create one with your desired name, template, and dependencies,\n\u{2192} then run `nockup project init` again."@,
            InitError::EmptyProjectName => "package.name in nockapp.toml cannot be empty"@,
            InitError::DirectoryExists { name } => "Directory '"@ + name@
                + "' already exists. Remove it or choose a different name."@,
            InitError::NoHomeDirectory => "Could not find home directory"@,
            InitError::TemplateNotCached { template, location } => "Template '"@ + template@
                + "' not found in cache at "@ + location@
                + ".\nRun `nockup channel update` or check your template-commit hash."@,
            InitError::CommitUnresolved { template_src } =>
                "Could not determine nockapp dependency commit for template '"@ + template_src@
                + "'. Run `nockup update` to refresh templates or set package.template_commit in nockapp.toml."@,
            InitError::InvalidCommitFile { path, .. } => "Failed to parse "@ + path@,
        }
    }

    /// The text the error is reported with.
    pub fn message(&self) -> (m: String)
        ensures
            m@ == self.text(),
    {
        match self {
            InitError::ManifestNotFound => owned(
                "No nockapp.toml found in current directory.\n\u{2192} Create one with your desired name, template, and dependencies,\n\u{2192} then run `nockup project init` again.",
            ),
            InitError::EmptyProjectName => owned("package.name in nockapp.toml cannot be empty"),
            InitError::DirectoryExists { name } => {
                let mut m = owned("Directory '");
                append_str(&mut m, name.as_str());
                append_str(&mut m, "' already exists. Remove it or choose a different name.");
                m
            },
            InitError::NoHomeDirectory => owned("Could not find home directory"),
            InitError::TemplateNotCached { template, location } => {
                let mut m = owned("Template '");
                append_str(&mut m, template.as_str());
                append_str(&mut m, "' not found in cache at ");
                append_str(&mut m, location.as_str());
                append_str(
                    &mut m,
                    ".\nRun `nockup channel update` or check your template-commit hash.",
                );
                m
            },
            InitError::CommitUnresolved { template_src } => {
                let mut m = owned("Could not determine nockapp dependency commit for template '");
                append_str(&mut m, template_src.as_str());
                append_str(
                    &mut m,
                    "'. Run `nockup update` to refresh templates or set package.template_commit in nockapp.toml.",
                );
                m
            },
            InitError::InvalidCommitFile { path, .. } => {
                let mut m = owned("Failed to parse ");
                append_str(&mut m, path.as_str());
                m
            },
        }
    }
}

/// The project's name: the package name without surrounding white space,
/// refused when nothing else is left.
pub fn project_name(package: &PackageInfo) -> (r: Result<String, InitError>)
    ensures
        trimmed(package.name@).len() == 0 <==> r matches Err(InitError::EmptyProjectName),
        r matches Ok(n) ==> n@ == trimmed(package.name@),
        r is Ok || r matches Err(InitError::EmptyProjectName),
{
    let n = trim(package.name.as_str());
    if n.as_str().unicode_len() == 0 {
        Err(InitError::EmptyProjectName)
    } else {
        Ok(n)
    }
}

/// The template the project is made from: the manifest's, else `basic`.
pub fn template_name(package: &PackageInfo) -> (r: String)
    ensures
        r@ == match package.template {
            Some(t) => t@,
            None => "basic"@,
        },
{
    match &package.template {
        Some(t) => t.clone(),
        None => owned("basic"),
    }
}

/// The directory name of a template in the cache: the template's name, with
/// `-<commit>` after it when a commit is pinned.
pub fn template_cache_entry(template: &str, commit: Option<&str>) -> (r: String)
    ensures
        r@ == match commit {
            Some(c) => template@ + "-"@ + c@,
            None => template@,
        },
{
    let mut r = owned(template);
    match commit {
        Some(c) => {
            append_str(&mut r, "-");
            append_str(&mut r, c);
        },
        None => {},
    }
    r
}

/// What a suggested next step does.
#[derive(PartialEq, Eq, Structural, Debug, Clone, Copy)]
pub enum StepAction {
    Build,
    Run,
}

/// A command suggested after the project is made: `nockup project <action>
/// <project>`, with `--bin <bin>` when it names a binary.
pub struct NextStep {
    pub action: StepAction,
    pub bin: Option<String>,
}

impl StepAction {
    /// The subcommand's word.
    pub fn word(&self) -> (w: String)
        ensures
            w@ == match self {
                StepAction::Build => "build"@,
                StepAction::Run => "run"@,
            },
    {
        match self {
            StepAction::Build => owned("build"),
            StepAction::Run => owned("run"),
        }
    }
}

/// The view of a suggested step.
pub open spec fn step_view(s: NextStep) -> (StepAction, Option<Seq<char>>) {
    (
        s.action,
        match s.bin {
            Some(b) => Some(b@),
            None => None,
        },
    )
}

/// The steps suggested for a template: build, then run; the `grpc` template
/// has two binaries, `listen` and `talk`, each run on its own.
pub open spec fn suggested_steps(template: Seq<char>) -> Seq<(StepAction, Option<Seq<char>>)> {
    if template == "grpc"@ {
        seq![
            (StepAction::Build, None),
            (StepAction::Run, Some("listen"@)),
            (StepAction::Run, Some("talk"@)),
        ]
    } else {
        seq![(StepAction::Build, None), (StepAction::Run, None)]
    }
}

/// The steps suggested once the project is ready.
pub fn next_steps(template: &str) -> (r: Vec<NextStep>)
    ensures
        r@.map_values(|s: NextStep| step_view(s)) == suggested_steps(template@),
{
    let mut r: Vec<NextStep> = Vec::new();
    r.push(NextStep { action: StepAction::Build, bin: None });
    if same_text(template, "grpc") {
        r.push(NextStep { action: StepAction::Run, bin: Some(owned("listen")) });
        r.push(NextStep { action: StepAction::Run, bin: Some(owned("talk")) });
    } else {
        r.push(NextStep { action: StepAction::Run, bin: None });
    }
    assert(r@.map_values(|s: NextStep| step_view(s)) =~= suggested_steps(template@));
    r
}

/// After init the project is built first and then run: the first step is a
/// build naming no binary, every later step is a run, so the last one is a
/// run, and a step that names a binary is always a run. The `grpc` template
/// runs `listen`, then `talk`; any other template is run once, naming no binary.
pub proof fn lemma_suggested_steps(template: Seq<char>)
    ensures
        suggested_steps(template).len() >= 2,
        suggested_steps(template)[0] == (StepAction::Build, Option::<Seq<char>>::None),
        forall|i: int|
            1 <= i < suggested_steps(template).len() ==> (#[trigger] suggested_steps(
                template,
            )[i]).0 == StepAction::Run,
        suggested_steps(template).last().0 == StepAction::Run,
        forall|i: int|
            0 <= i < suggested_steps(template).len() && (#[trigger] suggested_steps(
                template,
            )[i]).1 is Some ==> suggested_steps(template)[i].0 == StepAction::Run,
        template == "grpc"@ ==> suggested_steps(template).len() == 3 && suggested_steps(
            template,
        )[1].1 == Some("listen"@) && suggested_steps(template)[2].1 == Some("talk"@),
        template != "grpc"@ ==> suggested_steps(template).len() == 2 && suggested_steps(
            template,
        )[1].1 is None,
{
}

/// `s` without surrounding white space, when something is left.
pub open spec fn nonblank(s: Seq<char>) -> Option<Seq<char>> {
    if trimmed(s).len() > 0 {
        Some(trimmed(s))
    } else {
        None
    }
}

/// The optional string's view.
pub open spec fn opt_text(o: Option<String>) -> Option<Seq<char>> {
    match o {
        Some(s) => Some(s@),
        None => None,
    }
}

fn nonblank_of(s: &str) -> (r: Option<String>)
    ensures
        opt_text(r) == nonblank(s@),
{
    let t = trim(s);
    if t.as_str().unicode_len() == 0 {
        None
    } else {
        Some(t)
    }
}

/// Where a project's nockapp commit may come from, in the order they are tried.
#[derive(PartialEq, Eq, Structural, Debug, Clone, Copy)]
pub enum CommitSource {
    /// `package.template_commit` in the manifest.
    Pinned,
    /// `commit.id` in the `commit.toml` beside the cached templates.
    CommitFile,
    /// `git rev-parse HEAD` in the template's directory.
    Git,
    /// The commit this program was built from.
    BuildHash,
}

/// What to do next while the commit is looked for.
pub enum CommitStep {
    /// The commit is this one.
    Found(String),
    /// Look at this source next.
    Consult(CommitSource),
    /// No source gave a commit.
    Unresolved,
}

/// The source tried after `source`, if any.
pub open spec fn source_after(source: CommitSource) -> Option<CommitSource> {
    match source {
        CommitSource::Pinned => Some(CommitSource::CommitFile),
        CommitSource::CommitFile => Some(CommitSource::Git),
        CommitSource::Git => Some(CommitSource::BuildHash),
        CommitSource::BuildHash => None,
    }
}

/// Given what `source` yielded: its commit, when it gave one; otherwise the
/// next source, or nothing when all were tried.
pub fn next_commit_step(source: CommitSource, found: Option<String>) -> (r: CommitStep)
    ensures
        match found {
            Some(c) => r matches CommitStep::Found(x) && x@ == c@,
            None => match source_after(source) {
                Some(next) => r == CommitStep::Consult(next),
                None => r is Unresolved,
            },
        },
{
    match found {
        Some(c) => CommitStep::Found(c),
        None => match source {
            CommitSource::Pinned => CommitStep::Consult(CommitSource::CommitFile),
            CommitSource::CommitFile => CommitStep::Consult(CommitSource::Git),
            CommitSource::Git => CommitStep::Consult(CommitSource::BuildHash),
            CommitSource::BuildHash => CommitStep::Unresolved,
        },
    }
}

/// The sources are tried in a fixed order: the pinned commit, then the
/// `commit.toml` file, then git, then the build's own commit, after which
/// nothing is left; none is tried twice, and nothing comes before the pin.
pub proof fn lemma_commit_source_order()
    ensures
        source_after(CommitSource::Pinned) == Some(CommitSource::CommitFile),
        source_after(CommitSource::CommitFile) == Some(CommitSource::Git),
        source_after(CommitSource::Git) == Some(CommitSource::BuildHash),
        source_after(CommitSource::BuildHash) is None,
        forall|s: CommitSource| source_after(s) != Some(CommitSource::Pinned),
        forall|s: CommitSource| #[trigger] source_after(s) != Some(s),
{
}

/// A commit taken from any source is free of surrounding white space and not
/// empty, and taking it again gives the same commit.
pub proof fn lemma_nonblank_is_clean(s: Seq<char>)
    ensures
        nonblank(s) matches Some(t) ==> t.len() > 0 && !is_space(t[0]) && !is_space(t.last())
            && nonblank(t) == Some(t),
        nonblank(s) is None <==> trimmed(s).len() == 0,
{
    lemma_trimmed_bounds(s);
    lemma_trimmed_idempotent(s);
}

/// The commit pinned in the manifest, when it is not blank.
pub fn commit_from_pin(template_commit: Option<&str>) -> (r: Option<String>)
    ensures
        opt_text(r) == match template_commit {
            Some(c) => nonblank(c@),
            None => None,
        },
{
    match template_commit {
        Some(c) => nonblank_of(c),
        None => None,
    }
}

/// The commit a `commit.toml` document records under `[commit] id`, when it
/// is a string that is not blank.
pub open spec fn commit_file_id(doc: TomlValue) -> Option<Seq<char>> {
    match doc.lookup("commit"@) {
        Some(c) => match c.lookup("id"@) {
            Some(TomlValue::String(s)) => nonblank(s@),
            _ => None,
        },
        None => None,
    }
}

/// The commit a `commit.toml` document records.
pub fn commit_from_commit_file(doc: &TomlValue) -> (r: Option<String>)
    ensures
        opt_text(r) == commit_file_id(*doc),
{
    match doc.get("commit") {
        Some(c) => match c.get("id") {
            Some(v) => match v.as_str() {
                Some(s) => nonblank_of(s.as_str()),
                None => None,
            },
            None => None,
        },
        None => None,
    }
}

/// The commit that the text of the `commit.toml` at `path` records; text that
/// is not TOML is refused.
pub fn commit_from_commit_file_text(path: &str, text: &str) -> (r: Result<Option<String>, InitError>)
    ensures
        match parsed_toml(text@) {
            None => r matches Err(InitError::InvalidCommitFile { path: p, .. }) && p@ == path@,
            Some(doc) => r matches Ok(o) && opt_text(o) == commit_file_id(doc),
        },
{
    match parse_toml(text) {
        Ok(doc) => Ok(commit_from_commit_file(&doc)),
        Err(e) => Err(InitError::InvalidCommitFile { path: owned(path), error: e }),
    }
}

/// The commit `git rev-parse HEAD` printed, when it succeeded and printed
/// something besides white space.
pub fn commit_from_git(success: bool, stdout: &str) -> (r: Option<String>)
    ensures
        opt_text(r) == if success {
            nonblank(stdout@)
        } else {
            None
        },
{
    if success {
        nonblank_of(stdout)
    } else {
        None
    }
}

/// The commit this program was built from, unless it is blank or `unknown`.
pub fn commit_from_build_hash(build_hash: &str) -> (r: Option<String>)
    ensures
        opt_text(r) == if nonblank(build_hash@) is Some && trimmed(build_hash@) != "unknown"@ {
            nonblank(build_hash@)
        } else {
            None
        },
{
    let t = trim(build_hash);
    if t.as_str().unicode_len() == 0 || same_text(t.as_str(), "unknown") {
        None
    } else {
        Some(t)
    }
}

} // verus!
