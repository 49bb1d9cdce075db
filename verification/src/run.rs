//! Planning `nockup project run`: which binaries a project's `Cargo.toml`
//! declares, whether the requested one may be started, the arguments handed
//! to `cargo run`, and the errors the command reports.
use vstd::prelude::*;
use crate::text::{
    append_str, contains, lemma_views_push, format_i64, join, join_strings, lemma_join_has_part, lemma_occurs_within,
    occurs_at, owned, same_text, signed_decimal, trim, trimmed, views,
};
use crate::toml_doc::{parse_toml, parsed_toml, TomlValue};

verus! {

/// The view of an optional string.
pub open spec fn opt_view(o: Option<&str>) -> Option<Seq<char>> {
    match o {
        Some(s) => Some(s@),
        None => None,
    }
}

/// The names that one `[[bin]]` entry contributes: its `name`, when that is a string.
pub open spec fn bin_entry_name(item: TomlValue) -> Seq<Seq<char>> {
    match item.lookup("name"@) {
        Some(TomlValue::String(s)) => seq![s@],
        _ => Seq::empty(),
    }
}

/// The names of the `[[bin]]` entries that have a string `name`, in order.
pub open spec fn bin_names(items: Seq<TomlValue>) -> Seq<Seq<char>>
    decreases items.len(),
{
    if items.len() == 0 {
        Seq::empty()
    } else {
        bin_names(items.drop_last()) + bin_entry_name(items.last())
    }
}

/// Why `nockup project run` stops.
#[derive(Debug)]
pub enum RunError {
    ProjectDirectoryNotFound { project: String },
    CargoTomlNotFound { project: String },
    InvalidBinFormat,
    InvalidCargoToml { path: String, error: toml::de::Error },
    MultipleBinaries { project: String, binaries: Vec<String> },
    UnknownBinary { bin: String, project: String, binaries: Vec<String> },
    RunFailed { code: i32 },
}

/// `  - <name>` for each binary.
pub open spec fn binary_list_lines(names: Seq<Seq<char>>) -> Seq<Seq<char>> {
    names.map_values(|n: Seq<char>| "  - "@ + n)
}

/// The command that starts each binary of `project`.
pub open spec fn example_prefix(project: Seq<char>) -> Seq<char> {
    "  nockup project run "@ + project
}

/// `  nockup project run <project> --bin <name>` for each binary.
pub open spec fn example_lines(project: Seq<char>, names: Seq<Seq<char>>) -> Seq<Seq<char>> {
    names.map_values(|n: Seq<char>| example_prefix(project) + " --bin "@ + n)
}

/// The report for a project with several binaries and no `--bin`.
pub open spec fn multiple_binaries_text(project: Seq<char>, names: Seq<Seq<char>>) -> Seq<char> {
    "Project '"@ + project
        + "' has multiple binaries. Choose one with --bin.\n\nAvailable binaries:\n"@ + join(
        binary_list_lines(names),
        "\n"@,
    ) + "\n\nExamples:\n"@ + join(example_lines(project, names), "\n"@)
}

/// The report for a `--bin` that the project does not declare.
pub open spec fn unknown_binary_text(bin: Seq<char>, project: Seq<char>, names: Seq<Seq<char>>) -> Seq<
    char,
> {
    "Binary '"@ + bin + "' not found in project '"@ + project + "'. Available binaries: "@ + join(
        names,
        ", "@,
    )
}

impl RunError {
    /// The text the error is reported with.
    pub open spec fn text(&self) -> Seq<char> {
        match self {
            RunError::ProjectDirectoryNotFound { project } => "Project directory '"@ + project@
                + "' not found"@,
            RunError::CargoTomlNotFound { project } => "No Cargo.toml found in '"@ + project@
                + "'"@,
            RunError::InvalidBinFormat => "Invalid format for [[bin]] in Cargo.toml"@,
            RunError::InvalidCargoToml { path, .. } => "Failed to parse "@ + path@,
            RunError::MultipleBinaries { project, binaries } => multiple_binaries_text(
                project@,
                views(binaries@),
            ),
            RunError::UnknownBinary { bin, project, binaries } => unknown_binary_text(
                bin@,
                project@,
                views(binaries@),
            ),
            RunError::RunFailed { code } => "Run failed with exit code: "@ + signed_decimal(
                *code as int,
            ),
        }
    }

    /// The text the error is reported with.
    pub fn message(&self) -> (m: String)
        ensures
            m@ == self.text(),
    {
        match self {
            RunError::ProjectDirectoryNotFound { project } => {
                let mut m = owned("Project directory '");
                append_str(&mut m, project.as_str());
                append_str(&mut m, "' not found");
                m
            },
            RunError::CargoTomlNotFound { project } => {
                let mut m = owned("No Cargo.toml found in '");
                append_str(&mut m, project.as_str());
                append_str(&mut m, "'");
                m
            },
            RunError::InvalidBinFormat => owned("Invalid format for [[bin]] in Cargo.toml"),
            RunError::InvalidCargoToml { path, .. } => {
                let mut m = owned("Failed to parse ");
                append_str(&mut m, path.as_str());
                m
            },
            RunError::MultipleBinaries { project, binaries } => multiple_binaries_message(
                project.as_str(),
                binaries,
            ),
            RunError::UnknownBinary { bin, project, binaries } => {
                let mut m = owned("Binary '");
                append_str(&mut m, bin.as_str());
                append_str(&mut m, "' not found in project '");
                append_str(&mut m, project.as_str());
                append_str(&mut m, "'. Available binaries: ");
                let list = join_strings(binaries, ", ");
                append_str(&mut m, list.as_str());
                m
            },
            RunError::RunFailed { code } => {
                let mut m = owned("Run failed with exit code: ");
                let digits = format_i64(*code as i64);
                append_str(&mut m, digits.as_str());
                m
            },
        }
    }
}

fn multiple_binaries_message(project: &str, binaries: &Vec<String>) -> (m: String)
    ensures
        m@ == multiple_binaries_text(project@, views(binaries@)),
{
    let ghost names = views(binaries@);
    let mut list: Vec<String> = Vec::new();
    let mut examples: Vec<String> = Vec::new();
    let mut i: usize = 0;
    while i < binaries.len()
        invariant
            i <= binaries.len(),
            names == views(binaries@),
            views(list@) == binary_list_lines(names.take(i as int)),
            views(examples@) == example_lines(project@, names.take(i as int)),
        decreases binaries.len() - i,
    {
        let ghost name = names[i as int];
        assert(binaries@[i as int]@ == name);
        let mut line = owned("  - ");
        append_str(&mut line, binaries[i].as_str());
        proof {
            lemma_views_push(list@, line);
        }
        list.push(line);
        let mut example = owned("  nockup project run ");
        append_str(&mut example, project);
        append_str(&mut example, " --bin ");
        append_str(&mut example, binaries[i].as_str());
        proof {
            lemma_views_push(examples@, example);
        }
        examples.push(example);
        assert(binary_list_lines(names.take(i + 1)) =~= binary_list_lines(names.take(i as int)).push(
            "  - "@ + name,
        ));
        assert(example_lines(project@, names.take(i + 1)) =~= example_lines(
            project@,
            names.take(i as int),
        ).push(example_prefix(project@) + " --bin "@ + name));
        i = i + 1;
    }
    assert(names.take(binaries.len() as int) =~= names);
    let mut m = owned("Project '");
    append_str(&mut m, project);
    append_str(&mut m, "' has multiple binaries. Choose one with --bin.\n\nAvailable binaries:\n");
    let list_text = join_strings(&list, "\n");
    append_str(&mut m, list_text.as_str());
    append_str(&mut m, "\n\nExamples:\n");
    let example_text = join_strings(&examples, "\n");
    append_str(&mut m, example_text.as_str());
    m
}

/// The names of the binaries that a project's `Cargo.toml` declares under
/// `[[bin]]`; entries without a string `name` are passed over.
pub fn cargo_binary_names(manifest: &TomlValue) -> (r: Result<Vec<String>, RunError>)
    ensures
        match manifest.lookup("bin"@) {
            None => r matches Ok(names) && names@.len() == 0,
            Some(TomlValue::Array(items)) => r matches Ok(names) && views(names@) == bin_names(
                items@,
            ),
            Some(_) => r matches Err(RunError::InvalidBinFormat),
        },
{
    match manifest.get("bin") {
        None => Ok(Vec::new()),
        Some(bins) => match bins.as_array() {
            None => Err(RunError::InvalidBinFormat),
            Some(items) => {
                let mut names: Vec<String> = Vec::new();
                let mut i: usize = 0;
                while i < items.len()
                    invariant
                        i <= items.len(),
                        views(names@) == bin_names(items@.take(i as int)),
                    decreases items.len() - i,
                {
                    assert(items@.take(i + 1).drop_last() =~= items@.take(i as int));
                    match items[i].get("name") {
                        Some(v) => match v.as_str() {
                            Some(s) => {
                                names.push(s.clone());
                                assert(views(names@) =~= bin_names(items@.take(i + 1)));
                            },
                            None => {
                                assert(views(names@) =~= bin_names(items@.take(i + 1)));
                            },
                        },
                        None => {
                            assert(views(names@) =~= bin_names(items@.take(i + 1)));
                        },
                    }
                    i = i + 1;
                }
                assert(items@.take(items.len() as int) =~= items@);
                Ok(names)
            },
        },
    }
}

/// The names of the binaries that the text of the `Cargo.toml` at `path`
/// declares under `[[bin]]`; text that is not TOML is refused.
pub fn cargo_binary_names_in(path: &str, text: &str) -> (r: Result<Vec<String>, RunError>)
    ensures
        match parsed_toml(text@) {
            None => r matches Err(RunError::InvalidCargoToml { path: p, .. }) && p@ == path@,
            Some(doc) => match doc.lookup("bin"@) {
                None => r matches Ok(names) && names@.len() == 0,
                Some(TomlValue::Array(items)) => r matches Ok(names) && views(names@) == bin_names(
                    items@,
                ),
                Some(_) => r matches Err(RunError::InvalidBinFormat),
            },
        },
{
    match parse_toml(text) {
        Ok(doc) => cargo_binary_names(&doc),
        Err(e) => Err(RunError::InvalidCargoToml { path: owned(path), error: e }),
    }
}

/// Whether a run with the given `--bin` may go ahead: without one, the
/// project must have at most one binary; with one, it must be among the
/// declared binaries, unless the project declares none.
pub open spec fn selection_allowed(bin: Option<Seq<char>>, names: Seq<Seq<char>>) -> bool {
    match bin {
        None => names.len() <= 1,
        Some(b) => names.len() == 0 || names.contains(b),
    }
}

/// Checks the requested binary against those the project declares.
pub fn check_binary_selection(project: &str, bin: Option<&str>, binaries: &Vec<String>) -> (r:
    Result<(), RunError>)
    ensures
        r is Ok <==> selection_allowed(opt_view(bin), views(binaries@)),
        r matches Err(e) ==> match bin {
            None => e matches RunError::MultipleBinaries { project: p, binaries: b } && p@
                == project@ && b@ == binaries@,
            Some(x) => e matches RunError::UnknownBinary { bin: y, project: p, binaries: b } && y@
                == x@ && p@ == project@ && b@ == binaries@,
        },
{
    match bin {
        None => {
            if binaries.len() > 1 {
                let copy = binaries.clone();
                assert(copy@ =~= binaries@);
                Err(RunError::MultipleBinaries { project: owned(project), binaries: copy })
            } else {
                Ok(())
            }
        },
        Some(b) => {
            if binaries.len() == 0 {
                return Ok(());
            }
            let ghost names = views(binaries@);
            let mut i: usize = 0;
            while i < binaries.len()
                invariant
                    i <= binaries.len(),
                    names == views(binaries@),
                    opt_view(bin) == Some(b@),
                    forall|k: int| 0 <= k < i ==> names[k] != b@,
                decreases binaries.len() - i,
            {
                if same_text(binaries[i].as_str(), b) {
                    assert(names[i as int] == b@);
                    assert(names.contains(b@));
                    return Ok(());
                }
                i = i + 1;
            }
            let copy = binaries.clone();
            assert(copy@ =~= binaries@);
            Err(RunError::UnknownBinary { bin: owned(b), project: owned(project), binaries: copy })
        },
    }
}

/// The arguments handed to `cargo`: `run --release`, then `--bin <bin>` when a
/// binary was chosen, then `--` and the user's arguments when there are any.
pub open spec fn run_arguments(bin: Option<Seq<char>>, args: Seq<Seq<char>>) -> Seq<Seq<char>> {
    seq!["run"@, "--release"@] + match bin {
        Some(b) => seq!["--bin"@, b],
        None => Seq::empty(),
    } + if args.len() > 0 {
        seq!["--"@] + args
    } else {
        Seq::empty()
    }
}

/// The arguments handed to `cargo` for the run.
pub fn cargo_run_args(bin: Option<&str>, args: &Vec<String>) -> (r: Vec<String>)
    ensures
        views(r@) == run_arguments(opt_view(bin), views(args@)),
{
    let mut r: Vec<String> = Vec::new();
    r.push(owned("run"));
    r.push(owned("--release"));
    match bin {
        Some(b) => {
            r.push(owned("--bin"));
            r.push(owned(b));
        },
        None => {},
    }
    let ghost head = views(r@);
    if args.len() > 0 {
        r.push(owned("--"));
        let ghost start = views(r@);
        let mut i: usize = 0;
        while i < args.len()
            invariant
                i <= args.len(),
                views(r@) == start + views(args@).take(i as int),
            decreases args.len() - i,
        {
            let a = args[i].clone();
            proof {
                lemma_views_push(r@, a);
            }
            r.push(a);
            assert(start + views(args@).take(i + 1) =~= (start + views(args@).take(i as int)).push(
                args@[i as int]@,
            ));
            i = i + 1;
        }
        assert(views(args@).take(args.len() as int) =~= views(args@));
    }
    assert(views(r@) =~= run_arguments(opt_view(bin), views(args@)));
    r
}

/// The exit code a failed run is reported with: `-1` when the process has none.
pub open spec fn failure_code(code: Option<i32>) -> i32 {
    match code {
        Some(c) => c,
        None => -1i32,
    }
}

/// What a finished `cargo run` amounts to: success, or the exit code it
/// failed with (`-1` when it has none).
pub fn run_outcome(success: bool, code: Option<i32>) -> (r: Result<(), RunError>)
    ensures
        r is Ok <==> success,
        r matches Err(e) ==> e == (RunError::RunFailed { code: failure_code(code) }),
{
    if success {
        Ok(())
    } else {
        match code {
            Some(c) => Err(RunError::RunFailed { code: c }),
            None => Err(RunError::RunFailed { code: -1 }),
        }
    }
}

/// Whether the project argument names the current directory.
pub fn is_current_dir(project: &str) -> (b: bool)
    ensures
        b == (project@ == "."@),
{
    same_text(project, ".")
}

/// The name the run reports: for `.`, the trimmed package name of the
/// `nockapp.toml` found there, if there is one; otherwise the argument itself.
pub fn project_display_name(project: &str, manifest_name: Option<&str>) -> (r: String)
    ensures
        r@ == if project@ == "."@ && manifest_name is Some {
            trimmed(manifest_name->0@)
        } else {
            project@
        },
{
    if is_current_dir(project) {
        match manifest_name {
            Some(n) => trim(n),
            None => owned(project),
        }
    } else {
        owned(project)
    }
}

/// The report for several binaries names the `--bin` command for each of them.
pub proof fn lemma_multiple_binaries_names_each(project: Seq<char>, names: Seq<Seq<char>>, k: int)
    requires
        0 <= k < names.len(),
    ensures
        contains(multiple_binaries_text(project, names), " --bin "@ + names[k]),
        contains(multiple_binaries_text(project, names), "  - "@ + names[k]),
{
    let text = multiple_binaries_text(project, names);
    let examples = example_lines(project, names);
    let list = binary_list_lines(names);
    let head = "Project '"@ + project
        + "' has multiple binaries. Choose one with --bin.\n\nAvailable binaries:\n"@;
    let list_text = join(list, "\n"@);
    let mid = list_text + "\n\nExamples:\n"@;
    let ex_text = join(examples, "\n"@);
    let needle = " --bin "@ + names[k];
    let line = examples[k];
    assert(line == example_prefix(project) + needle);
    let in_line = example_prefix(project).len() as int;
    assert(line.subrange(in_line, in_line + needle.len()) =~= needle);
    assert(occurs_at(line, needle, in_line));
    let in_ex = lemma_join_has_part(examples, "\n"@, k);
    lemma_occurs_within(ex_text, line, needle, in_ex, in_line);
    let ex_at = (head.len() + mid.len()) as int;
    assert(text == head + mid + ex_text);
    assert(text.subrange(ex_at, ex_at + ex_text.len()) =~= ex_text);
    assert(occurs_at(text, ex_text, ex_at));
    lemma_occurs_within(text, ex_text, needle, ex_at, in_ex + in_line);
    let item = "  - "@ + names[k];
    assert(list[k] == item);
    assert(list[k].subrange(0, item.len() as int) =~= item);
    let in_list = lemma_join_has_part(list, "\n"@, k);
    let list_at = head.len() as int;
    assert(text.subrange(list_at, list_at + list_text.len()) =~= list_text);
    assert(occurs_at(text, list_text, list_at));
    lemma_occurs_within(text, list_text, item, list_at, in_list);
}

/// The report for an unknown binary lists every declared binary.
pub proof fn lemma_unknown_binary_lists_each(
    bin: Seq<char>,
    project: Seq<char>,
    names: Seq<Seq<char>>,
    k: int,
)
    requires
        0 <= k < names.len(),
    ensures
        contains(unknown_binary_text(bin, project, names), names[k]),
        contains(unknown_binary_text(bin, project, names), "Binary '"@ + bin),
{
    let text = unknown_binary_text(bin, project, names);
    let head = "Binary '"@ + bin + "' not found in project '"@ + project
        + "'. Available binaries: "@;
    let list = join(names, ", "@);
    assert(text == head + list);
    let at = lemma_join_has_part(names, ", "@, k);
    assert(text.subrange(head.len() as int, (head.len() + list.len()) as int) =~= list);
    assert(occurs_at(text, list, head.len() as int));
    lemma_occurs_within(text, list, names[k], head.len() as int, at);
    let start = "Binary '"@ + bin;
    assert(text.subrange(0, start.len() as int) =~= start);
    assert(occurs_at(text, start, 0));
}

} // verus!

verus! {

/// A `--bin` that the project declares is always accepted; one it does not
/// declare is refused unless it declares none; without `--bin`, a run goes
/// ahead exactly when there is at most one binary.
pub proof fn lemma_selection_rules(names: Seq<Seq<char>>, b: Seq<char>)
    ensures
        (exists|k: int| 0 <= k < names.len() && names[k] == b) ==> selection_allowed(
            Some(b),
            names,
        ),
        names.len() == 0 ==> selection_allowed(Some(b), names),
        names.len() > 0 && (forall|k: int| 0 <= k < names.len() ==> names[k] != b)
            ==> !selection_allowed(Some(b), names),
        selection_allowed(None, names) <==> names.len() <= 1,
{
}

/// The `cargo` arguments start with `run --release`, then `--bin <b>` for a
/// chosen binary whether or not more arguments follow; the user's arguments,
/// when there are any, end the list unchanged after a `--`; nothing else is
/// added.
pub proof fn lemma_run_arguments_shape(bin: Option<Seq<char>>, args: Seq<Seq<char>>)
    ensures
        run_arguments(bin, args).len() == 2 + (if bin is Some {
            2int
        } else {
            0int
        }) + (if args.len() > 0 {
            args.len() + 1int
        } else {
            0int
        }),
        run_arguments(bin, args)[0] == "run"@,
        run_arguments(bin, args)[1] == "--release"@,
        bin is Some ==> run_arguments(bin, args)[2] == "--bin"@ && run_arguments(bin, args)[3]
            == bin->0,
        args.len() > 0 ==> run_arguments(bin, args)[run_arguments(bin, args).len() - args.len()
            - 1] == "--"@,
        args.len() > 0 ==> run_arguments(bin, args).subrange(
            run_arguments(bin, args).len() - args.len(),
            run_arguments(bin, args).len() as int,
        ) == args,
{
    let r = run_arguments(bin, args);
    if args.len() > 0 {
        assert(r.subrange(r.len() - args.len(), r.len() as int) =~= args);
    }
}

/// A failed run is reported with its exit code, or `-1` when it has none.
pub proof fn lemma_failure_code(code: Option<i32>)
    ensures
        code matches Some(c) ==> failure_code(code) == c,
        code is None ==> failure_code(code) == -1,
{
}

/// Names are read in the order of the entries: the names of two lists of
/// entries one after the other are the names of the first, then those of the
/// second; a single entry gives its string `name`, or nothing.
pub proof fn lemma_bin_names_append(a: Seq<TomlValue>, b: Seq<TomlValue>, x: TomlValue)
    ensures
        bin_names(a + b) == bin_names(a) + bin_names(b),
        bin_names(seq![x]) == bin_entry_name(x),
    decreases b.len(),
{
    assert(seq![x].drop_last() =~= Seq::<TomlValue>::empty());
    assert(seq![x].last() == x);
    assert(bin_names(Seq::<TomlValue>::empty()) == Seq::<Seq<char>>::empty());
    assert(bin_names(seq![x]) == bin_names(seq![x].drop_last()) + bin_entry_name(x));
    assert(bin_names(seq![x]) =~= bin_entry_name(x));
    if b.len() == 0 {
        assert(a + b =~= a);
        assert(bin_names(a) + bin_names(b) =~= bin_names(a));
    } else {
        lemma_bin_names_append(a, b.drop_last(), x);
        assert((a + b).drop_last() =~= a + b.drop_last());
        assert((a + b).last() == b.last());
        assert(bin_names(a + b) =~= bin_names(a) + bin_names(b));
    }
}

/// The `[[bin]]` entry's `name` is the string `n`.
pub open spec fn entry_named(item: TomlValue, n: Seq<char>) -> bool {
    match item.lookup("name"@) {
        Some(TomlValue::String(s)) => s@ == n,
        _ => false,
    }
}

/// Some entry of `items` is named `n`.
pub open spec fn some_entry_named(items: Seq<TomlValue>, n: Seq<char>) -> bool {
    exists|k: int| 0 <= k < items.len() && #[trigger] entry_named(items[k], n)
}

/// Every name read from `[[bin]]` is the string `name` of one of its entries,
/// and every entry with a string `name` gives its name.
pub proof fn lemma_bin_names_sources(items: Seq<TomlValue>)
    ensures
        bin_names(items).len() <= items.len(),
        forall|j: int|
            0 <= j < bin_names(items).len() ==> #[trigger] some_entry_named(
                items,
                bin_names(items)[j],
            ),
        forall|k: int, n: Seq<char>|
            0 <= k < items.len() && #[trigger] entry_named(items[k], n) ==> bin_names(
                items,
            ).contains(n),
    decreases items.len(),
{
    if items.len() > 0 {
        let d = items.drop_last();
        lemma_bin_names_sources(d);
        let last = items.last();
        assert forall|j: int| 0 <= j < bin_names(items).len() implies #[trigger] some_entry_named(
            items,
            bin_names(items)[j],
        ) by {
            if j < bin_names(d).len() {
                assert(bin_names(items)[j] == bin_names(d)[j]);
                assert(some_entry_named(d, bin_names(d)[j]));
                let k = choose|k: int|
                    0 <= k < d.len() && #[trigger] entry_named(d[k], bin_names(d)[j]);
                assert(items[k] == d[k]);
                assert(entry_named(items[k], bin_names(items)[j]));
            } else {
                assert(items[items.len() - 1] == last);
                assert(entry_named(items[items.len() - 1], bin_names(items)[j]));
            }
        }
        assert forall|k: int, n: Seq<char>|
            0 <= k < items.len() && #[trigger] entry_named(items[k], n) implies bin_names(
            items,
        ).contains(n) by {
            if k < d.len() {
                assert(d[k] == items[k]);
                assert(entry_named(d[k], n));
                let j = choose|j: int| 0 <= j < bin_names(d).len() && bin_names(d)[j] == n;
                assert(bin_names(items)[j] == n);
            } else {
                assert(items[k] == last);
                assert(bin_names(items)[bin_names(d).len() as int] == n);
            }
        }
    }
}

} // verus!
