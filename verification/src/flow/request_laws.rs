//! What the command lines are turned into, and what is checked before anything is
//! done: that nothing that was asked for is lost on the way.

use super::cca_fvp;
use super::cca_fvp::CcaFvpCli;
use super::cca_tests::CcaTestsCli;
use super::kernel;
use super::laws;
use super::path;
use super::pipeline::{JobDep, JobView, RequestView};
use super::plan::ActionView;
use super::prereq;
use super::repo;
use super::repo::Candidate;
use super::run_cca_test;
use super::shrinkwrap_run;
use crate::text;
use vstd::prelude::*;

verus! {

/// The packages that are reported as missing are exactly those that are not
/// installed.
pub proof fn missing_packages_are_not_installed(
    packages: Seq<Seq<char>>,
    installed: Seq<bool>,
    name: Seq<char>,
)
    requires
        packages.len() == installed.len(),
    ensures
        ({
            let missing = prereq::missing_packages(packages, installed);
            &&& missing.contains(name) <==> exists|i: int|
                0 <= i < packages.len() && !installed[i] && #[trigger] packages[i] == name
            &&& missing.len() == 0 <==> forall|i: int|
                0 <= i < installed.len() ==> #[trigger] installed[i]
        }),
    decreases packages.len(),
{
    if packages.len() > 0 {
        let (rest, flags) = (packages.drop_last(), installed.drop_last());
        let last = packages.len() - 1;
        missing_packages_are_not_installed(rest, flags, name);
        let before = prereq::missing_packages(rest, flags);
        let missing = prereq::missing_packages(packages, installed);
        if missing.contains(name) {
            let k = missing.index_of(name);
            if k < before.len() {
                assert(before[k] == name);
                assert(before.contains(name));
                let i = choose|i: int|
                    0 <= i < rest.len() && !flags[i] && #[trigger] rest[i] == name;
                assert(packages[i] == name && !installed[i]);
            } else {
                assert(packages[last] == name);
            }
        }
        if exists|i: int| 0 <= i < packages.len() && !installed[i] && #[trigger] packages[i] == name {
            let i = choose|i: int|
                0 <= i < packages.len() && !installed[i] && #[trigger] packages[i] == name;
            if i < last {
                assert(rest[i] == name && !flags[i]);
                let k = before.index_of(name);
                assert(missing[k] == name);
            } else {
                assert(missing.last() == name);
            }
        }
        if missing.len() == 0 {
            assert(before.len() == 0 && installed[last]);
            assert forall|i: int| 0 <= i < installed.len() implies #[trigger] installed[i] by {
                if i < last {
                    assert(flags[i]);
                }
            }
        }
        if forall|i: int| 0 <= i < installed.len() ==> #[trigger] installed[i] {
            assert forall|i: int| 0 <= i < flags.len() implies #[trigger] flags[i] by {
                assert(installed[i]);
            }
            assert(installed[last]);
        }
    }
}

proof fn lemma_package_line(packages: Seq<Seq<char>>, i: int)
    requires
        0 <= i < packages.len(),
    ensures
        laws::occurs(prereq::package_lines(packages), "  - "@ + packages[i] + "\n"@),
    decreases packages.len(),
{
    let before = prereq::package_lines(packages.drop_last());
    let last = "  - "@ + packages.last() + "\n"@;
    let part = "  - "@ + packages[i] + "\n"@;
    let all = prereq::package_lines(packages);
    assert(all =~= before + last);
    if i == packages.len() - 1 {
        assert(all =~= before + part + Seq::empty());
        assert(laws::is_split(all, before, part, Seq::empty()));
    } else {
        lemma_package_line(packages.drop_last(), i);
        laws::lemma_occurs_inside(Seq::empty(), before, last, part);
        assert(Seq::empty() + before + last =~= all);
    }
}

proof fn lemma_package_word(packages: Seq<Seq<char>>, i: int)
    requires
        0 <= i < packages.len(),
    ensures
        laws::occurs(prereq::package_words(packages), packages[i]),
    decreases packages.len(),
{
    let part = packages[i];
    let all = prereq::package_words(packages);
    if packages.len() == 1 {
        assert(all =~= Seq::empty() + part + Seq::empty());
        assert(laws::is_split(all, Seq::empty(), part, Seq::empty()));
    } else {
        let before = prereq::package_words(packages.drop_last());
        if i == packages.len() - 1 {
            assert(all =~= (before + " "@) + part + Seq::empty());
            assert(laws::is_split(all, before + " "@, part, Seq::empty()));
        } else {
            lemma_package_word(packages.drop_last(), i);
            let end = " "@ + packages.last();
            laws::lemma_occurs_inside(Seq::empty(), before, end, part);
            assert(Seq::empty() + before + end =~= all);
        }
    }
}

/// Whether a name is one of the packages that the emulation environment needs.
pub open spec fn is_required_package(name: Seq<char>) -> bool {
    ||| name == "netcat-openbsd"@
    ||| name == "python3"@
    ||| name == "python3-pip"@
    ||| name == "telnet"@
    ||| name == "docker.io"@
    ||| name == "gcc-aarch64-linux-gnu"@
    ||| name == "flex"@
    ||| name == "bison"@
    ||| name == "libssl-dev"@
    ||| name == "python3-venv"@
}

/// Every package that the emulation environment needs is looked for.
pub proof fn required_packages_are_looked_for(name: Seq<char>)
    requires
        is_required_package(name),
    ensures
        prereq::required_package_names().contains(name),
{
    let all = prereq::required_package_names();
    assert(all[0] == "netcat-openbsd"@ && all[1] == "python3"@ && all[2] == "python3-pip"@);
    assert(all[3] == "telnet"@ && all[4] == "docker.io"@ && all[5] == "gcc-aarch64-linux-gnu"@);
    assert(all[6] == "flex"@ && all[7] == "bison"@ && all[8] == "libssl-dev"@);
    assert(all[9] == "python3-venv"@);
}

/// A package that is missing is reported, on a line of its own and among the words
/// of the command that installs what is missing.
pub proof fn missing_packages_are_reported(missing: Seq<Seq<char>>, i: int)
    requires
        0 <= i < missing.len(),
    ensures
        laws::occurs(prereq::missing_report(missing), "  - "@ + missing[i] + "\n"@),
        ({
            let command = "  sudo apt update && sudo apt install -y "@ + prereq::package_words(
                missing,
            ) + "\n\n"@;
            &&& laws::ends(prereq::missing_report(missing), command)
            &&& laws::occurs(prereq::package_words(missing), missing[i])
        }),
{
    lemma_package_line(missing, i);
    lemma_package_word(missing, i);
    reveal_strlit("\nPlease install them using:\n  sudo apt update && sudo apt install -y ");
    reveal_strlit("\nPlease install them using:\n");
    reveal_strlit("  sudo apt update && sudo apt install -y ");
    let head = "The following required packages are NOT installed:\n\n"@;
    let lines = prereq::package_lines(missing);
    let how = "\nPlease install them using:\n"@;
    let apt = "  sudo apt update && sudo apt install -y "@;
    let words = prereq::package_words(missing);
    let report = prereq::missing_report(missing);
    assert("\nPlease install them using:\n  sudo apt update && sudo apt install -y "@ =~= how + apt);
    let tail = how + apt + words + "\n\n"@;
    assert(report =~= head + lines + tail);
    laws::lemma_occurs_inside(head, lines, tail, "  - "@ + missing[i] + "\n"@);
    let command = apt + words + "\n\n"@;
    assert(report =~= (head + lines + how) + command);
    assert(report.skip(report.len() - command.len()) =~= command);
}

/// A text has a line that starts with a prefix where one does: at its very start,
/// or behind the end of another line; and a text of one line only at its start.
pub proof fn lines_are_searched_at_their_starts(
    before: Seq<char>,
    prefix: Seq<char>,
    behind: Seq<char>,
)
    ensures
        text::has_line_with(prefix + behind, prefix),
        text::has_line_with(before + "\n"@ + prefix + behind, prefix),
        !before.contains('\n') ==> (text::has_line_with(before, prefix) <==> laws::starts(
            before,
            prefix,
        )),
{
    reveal_strlit("\n");
    let first = prefix + behind;
    assert(first.subrange(0, prefix.len() as int) =~= prefix);
    assert(text::has_at(first, prefix, 0));
    let later = before + "\n"@ + prefix + behind;
    let at = (before.len() + 1) as int;
    assert(later.subrange(at, at + prefix.len()) =~= prefix);
    assert(text::has_at(later, prefix, at));
    assert(later[at - 1] == '\n');
    if !before.contains('\n') {
        if laws::starts(before, prefix) {
            assert(before.subrange(0, prefix.len() as int) =~= before.take(prefix.len() as int));
            assert(text::has_at(before, prefix, 0));
        }
        if text::has_line_with(before, prefix) {
            let at = choose|at: int| #[trigger]
                text::has_at(before, prefix, at) && (at == 0 || before[at - 1] == '\n');
            assert(at == 0);
            assert(before.subrange(0, prefix.len() as int) =~= before.take(prefix.len() as int));
        }
    }
}

/// A word is one of the words of a text where spaces stand around it, or the ends
/// of the text; and a text without white space has itself as its only word.
pub proof fn words_stand_between_spaces(
    before: Seq<char>,
    word: Seq<char>,
    behind: Seq<char>,
)
    requires
        word.len() > 0,
    ensures
        text::has_word(before + " "@ + word + " "@ + behind, word),
        text::has_word(word + " "@ + behind, word),
        text::has_word(before + " "@ + word, word),
        (forall|i: int| 0 <= i < before.len() ==> !text::is_space(#[trigger] before[i])) ==> (
        text::has_word(before, word) <==> before == word),
{
    reveal_strlit(" ");
    let inner = before + " "@ + word + " "@ + behind;
    let at = (before.len() + 1) as int;
    assert(inner.subrange(at, at + word.len()) =~= word);
    assert(text::has_at(inner, word, at));
    assert(inner[at - 1] == ' ' && inner[at + word.len()] == ' ');
    let first = word + " "@ + behind;
    assert(first.subrange(0, word.len() as int) =~= word);
    assert(text::has_at(first, word, 0));
    assert(first[word.len() as int] == ' ');
    let last = before + " "@ + word;
    assert(last.subrange(at, at + word.len()) =~= word);
    assert(text::has_at(last, word, at));
    assert(last[at - 1] == ' ');
    if forall|i: int| 0 <= i < before.len() ==> !text::is_space(#[trigger] before[i]) {
        if before == word {
            assert(before.subrange(0, word.len() as int) =~= word);
            assert(text::has_at(before, word, 0));
        }
        if text::has_word(before, word) {
            let at = choose|at: int| #[trigger]
                text::has_at(before, word, at) && (at == 0 || text::is_space(before[at - 1])) && (at
                    + word.len() == before.len() || text::is_space(before[at + word.len()]));
            assert(at == 0 && word.len() == before.len());
            assert(before.subrange(0, word.len() as int) =~= before);
        }
    }
}

/// Whether a directory has all four marks of the repository's root: the manifest
/// and the three directories.
pub open spec fn has_all_marks(candidate: Candidate) -> bool {
    &&& candidate.has_manifest
    &&& candidate.has_flowey
    &&& candidate.has_openhcl
    &&& candidate.has_openvmm
}

/// The root that is found among some directories is the first that has all four
/// marks, and there is none exactly where none has.
pub proof fn nearest_root_is_found(candidates: Seq<Candidate>)
    ensures
        match repo::first_root(candidates) {
            Some(root) => exists|i: int|
                {
                    &&& 0 <= i < candidates.len()
                    &&& has_all_marks(#[trigger] candidates[i])
                    &&& candidates[i].path@ == root
                    &&& forall|j: int| 0 <= j < i ==> !has_all_marks(#[trigger] candidates[j])
                },
            None => forall|i: int|
                0 <= i < candidates.len() ==> !has_all_marks(#[trigger] candidates[i]),
        },
    decreases candidates.len(),
{
    if candidates.len() > 0 {
        if candidates[0].is_root() {
            assert(has_all_marks(candidates[0]));
        } else {
            let rest = candidates.skip(1);
            nearest_root_is_found(rest);
            match repo::first_root(rest) {
                Some(root) => {
                    let i = choose|i: int|
                        {
                            &&& 0 <= i < rest.len()
                            &&& has_all_marks(#[trigger] rest[i])
                            &&& rest[i].path@ == root
                            &&& forall|j: int| 0 <= j < i ==> !has_all_marks(#[trigger] rest[j])
                        };
                    assert(candidates[i + 1] == rest[i]);
                    assert forall|j: int| 0 <= j < i + 1 implies !has_all_marks(
                        #[trigger] candidates[j],
                    ) by {
                        if j > 0 {
                            assert(rest[j - 1] == candidates[j]);
                        }
                    }
                },
                None => {
                    assert forall|i: int| 0 <= i < candidates.len() implies !has_all_marks(
                        #[trigger] candidates[i],
                    ) by {
                        if i > 0 {
                            assert(rest[i - 1] == candidates[i]);
                        }
                    }
                },
            }
        }
    }
}

/// Where the repository is said to be: at the path that the environment gives;
/// else, in a container or beside its checkout, at that checkout; else at the
/// nearest root above the current directory, and else above the directory that the
/// program was compiled in.
pub proof fn repo_is_looked_for_in_order(surroundings: repo::Surroundings)
    ensures
        ({
            let found = surroundings.repo();
            &&& surroundings.override_path matches Some(path) ==> found == Some(path@)
            &&& surroundings.override_path is None ==> {
                &&& surroundings.in_container || surroundings.has_container_path ==> found == Some(
                    "/workspaces/openvmm"@,
                )
                &&& !surroundings.in_container && !surroundings.has_container_path ==> {
                    let near = repo::first_root(surroundings.current_dir@);
                    &&& near is Some ==> found == near
                    &&& near is None ==> found == repo::first_root(surroundings.manifest_dir@)
                }
            }
        }),
{
}

/// Whether a job takes the repository from a clone, with the settings of an
/// interactive run, and then does what it is asked to do.
pub open spec fn is_local_job(
    job: JobView,
    repo_root: Seq<char>,
    auto_install: bool,
    verbose: bool,
    request: RequestView,
) -> bool {
    &&& job.requests.len() == 4
    &&& job.requests[0] is InitVersions
    &&& job.requests[1] == (RequestView::RepoSource { clone: repo_root })
    &&& job.requests[2] matches RequestView::Common(params)
    &&& params.interactive
    &&& params.auto_install == auto_install
    &&& params.verbose == verbose
    &&& params.ignore_rust_version
    &&& !params.locked
    &&& !params.deny_warnings
    &&& !params.no_incremental
    &&& job.requests[3] == request
}

/// What the pipeline for the emulator is asked to do: to install Shrinkwrap under
/// the working directory, then to build with the platform, every overlay, every
/// build variable and every build argument, and then to run with the platform, the
/// root file system, every run variable, every run argument and the time limit.
/// Each job waits for the one before.
pub proof fn emulator_pipeline_keeps_the_command_line(
    cli: CcaFvpCli,
    repo_root: Seq<char>,
    canonical: Option<Seq<char>>,
)
    requires
        cli.pipeline(repo_root, canonical) is Ok,
    ensures
        ({
            let pipeline = cli.pipeline(repo_root, canonical)->Ok_0;
            let absolute = cli.dir@.len() > 0 && cli.dir@[0] == '/';
            let dir = if canonical is Some {
                canonical->0
            } else if absolute {
                cli.dir@
            } else {
                path::joined(repo_root, cli.dir@)
            };
            let shrinkwrap = path::joined(dir, "shrinkwrap"@);
            let (auto_install, verbose) = (cli.install_missing_deps, cli.verbose);
            let install = pipeline.jobs[0].requests[3];
            let build = pipeline.jobs[1].requests[3];
            let run = pipeline.jobs[2].requests[3];
            &&& pipeline.jobs.len() == 3
            &&& pipeline.deps =~= seq![JobDep { job: 1, on: 0 }, JobDep { job: 2, on: 1 }]
            &&& is_local_job(pipeline.jobs[0], repo_root, auto_install, verbose, install)
            &&& is_local_job(pipeline.jobs[1], repo_root, auto_install, verbose, build)
            &&& is_local_job(pipeline.jobs[2], repo_root, auto_install, verbose, run)
            &&& install matches RequestView::InstallShrinkwrap(params)
            &&& params.shrinkwrap_dir == shrinkwrap
            &&& params.do_installs == cli.install_missing_deps
            &&& params.update_repo == cli.update_shrinkwrap_repo
            &&& build matches RequestView::ShrinkwrapBuild(params)
            &&& params.out_dir == dir
            &&& params.shrinkwrap_dir == shrinkwrap
            &&& cca_fvp::resolved(cli.platform@, "--platform"@, cli.dir@, dir) == Ok::<
                Seq<char>,
                Seq<char>,
            >(params.platform_yaml)
            &&& params.overlays.len() == cli.overlay@.len()
            &&& forall|i: int|
                0 <= i < cli.overlay@.len() ==> cca_fvp::resolved(
                    cli.overlay@[i]@,
                    "--overlay"@,
                    cli.dir@,
                    dir,
                ) == Ok::<Seq<char>, Seq<char>>(#[trigger] params.overlays[i])
            &&& params.btvars.len() == cli.btvar@.len()
            &&& forall|i: int|
                0 <= i < cli.btvar@.len() ==> #[trigger] params.btvars[i] == cli.btvar@[i]@
            &&& params.extra_args.len() == cli.build_arg@.len()
            &&& forall|i: int|
                0 <= i < cli.build_arg@.len() ==> #[trigger] params.extra_args[i]
                    == cli.build_arg@[i]@
            &&& run matches RequestView::ShrinkwrapRun(params)
            &&& params.out_dir == dir
            &&& params.shrinkwrap_dir == shrinkwrap
            &&& cca_fvp::resolved(cli.platform@, "--platform"@, cli.dir@, dir) == Ok::<
                Seq<char>,
                Seq<char>,
            >(params.platform_yaml)
            &&& params.rootfs_path == cli.rootfs@
            &&& params.rtvars.len() == cli.rtvar@.len()
            &&& forall|i: int|
                0 <= i < cli.rtvar@.len() ==> #[trigger] params.rtvars[i] == cli.rtvar@[i]@
            &&& params.extra_args.len() == cli.run_arg@.len()
            &&& forall|i: int|
                0 <= i < cli.run_arg@.len() ==> #[trigger] params.extra_args[i] == cli.run_arg@[i]@
            &&& params.timeout_sec == cli.timeout_sec
        }),
{
    let dir = cca_fvp::working_dir(cli.dir@, canonical, repo_root);
    let overlays = text::views(cli.overlay@);
    overlays_are_resolved_one_by_one(overlays, cli.dir@, dir);
    assert forall|i: int| 0 <= i < cli.overlay@.len() implies cca_fvp::resolved(
        cli.overlay@[i]@,
        "--overlay"@,
        cli.dir@,
        dir,
    ) == Ok::<Seq<char>, Seq<char>>(
        #[trigger] cca_fvp::resolved_overlays(overlays, cli.dir@, dir)->Ok_0[i],
    ) by {
        assert(overlays[i] == cli.overlay@[i]@);
    }
}

/// Overlays are resolved one by one, in their order, exactly if each can be.
pub proof fn overlays_are_resolved_one_by_one(
    overlays: Seq<Seq<char>>,
    original_dir: Seq<char>,
    dir: Seq<char>,
)
    ensures
        match cca_fvp::resolved_overlays(overlays, original_dir, dir) {
            Ok(paths) => {
                &&& paths.len() == overlays.len()
                &&& forall|i: int|
                    0 <= i < overlays.len() ==> cca_fvp::resolved(
                        overlays[i],
                        "--overlay"@,
                        original_dir,
                        dir,
                    ) == Ok::<Seq<char>, Seq<char>>(#[trigger] paths[i])
            },
            Err(error) => exists|i: int|
                0 <= i < overlays.len() && cca_fvp::resolved(
                    #[trigger] overlays[i],
                    "--overlay"@,
                    original_dir,
                    dir,
                ) == Err::<Seq<char>, Seq<char>>(error),
        },
    decreases overlays.len(),
{
    if overlays.len() > 0 {
        let rest = overlays.drop_last();
        let last = overlays.len() - 1;
        overlays_are_resolved_one_by_one(rest, original_dir, dir);
        match cca_fvp::resolved_overlays(rest, original_dir, dir) {
            Ok(before) => {
                assert(overlays[last] == overlays.last());
                if let Ok(paths) = cca_fvp::resolved_overlays(overlays, original_dir, dir) {
                    assert forall|i: int| 0 <= i < overlays.len() implies cca_fvp::resolved(
                        overlays[i],
                        "--overlay"@,
                        original_dir,
                        dir,
                    ) == Ok::<Seq<char>, Seq<char>>(#[trigger] paths[i]) by {
                        if i < last {
                            assert(paths[i] == before[i]);
                            assert(rest[i] == overlays[i]);
                        }
                    }
                }
            },
            Err(error) => {
                let i = choose|i: int|
                    0 <= i < rest.len() && cca_fvp::resolved(
                        #[trigger] rest[i],
                        "--overlay"@,
                        original_dir,
                        dir,
                    ) == Err::<Seq<char>, Seq<char>>(error);
                assert(overlays[i] == rest[i]);
            },
        }
    }
}

/// How the path of a platform or an overlay is understood, where the working
/// directory was given as a plain relative path. An absolute path is taken as it
/// is. A name without a slash is looked for in Shrinkwrap's configuration. Another
/// path has to start with the working directory, as it was given and up to a
/// slash, or with that behind `./`; what follows is looked for there, however many
/// slashes it starts with. All else is refused.
pub proof fn paths_are_understood(
    p: Seq<char>,
    arg_name: Seq<char>,
    original_dir: Seq<char>,
    dir: Seq<char>,
    rest: Seq<char>,
)
    requires
        original_dir.len() > 0,
        original_dir[0] != '.' && original_dir[0] != '/',
        original_dir.last() != '/',
        rest.len() > 0 ==> rest[0] != '/',
    ensures
        ({
            let r = cca_fvp::resolved(p, arg_name, original_dir, dir);
            let absolute = p.len() > 0 && p[0] == '/';
            let inside = original_dir + "/"@;
            &&& absolute ==> r == Ok::<Seq<char>, Seq<char>>(p)
            &&& !p.contains('/') ==> r == Ok::<Seq<char>, Seq<char>>(
                path::joined(path::joined(path::joined(dir, "shrinkwrap"@), "config"@), p),
            )
            &&& p == inside + rest ==> r == Ok::<Seq<char>, Seq<char>>(path::joined(dir, rest))
            &&& p == "./"@ + inside + rest ==> r == Ok::<Seq<char>, Seq<char>>(
                path::joined(dir, rest),
            )
            &&& r is Ok <==> absolute || !p.contains('/') || laws::starts(p, inside)
                || laws::starts(p, "./"@ + inside)
        }),
{
    reveal_strlit("./");
    reveal_strlit("/");
    let inside = original_dir + "/"@;
    let alt = "./"@ + inside;
    assert(text::trimmed(original_dir, "./"@) == original_dir) by {
        if text::has_at(original_dir, "./"@, 0) {
            assert(original_dir.subrange(0, 2)[0] == '.');
        }
    }
    assert(text::trimmed_end(original_dir, '/') == original_dir);
    assert(cca_fvp::dir_prefix(original_dir) == inside);
    lemma_starts(p, inside);
    lemma_starts(p, alt);
    assert(text::trimmed(rest, "/"@) == rest) by {
        if text::has_at(rest, "/"@, 0) {
            assert(rest.subrange(0, 1)[0] == '/');
        }
    }
    if p == inside + rest {
        assert(p.take(inside.len() as int) =~= inside);
        assert(p.skip(inside.len() as int) =~= rest);
        assert(p[original_dir.len() as int] == '/');
        assert(p[0] == original_dir[0]);
    }
    if p == alt + rest {
        assert(p.take(alt.len() as int) =~= alt);
        assert(p.skip(alt.len() as int) =~= rest);
        assert(p[1] == '/' && p[0] == '.');
        if laws::starts(p, inside) {
            assert(p.take(inside.len() as int)[0] == inside[0]);
        }
    }
    assert("./"@ + inside + rest =~= alt + rest);
}

proof fn lemma_starts(p: Seq<char>, prefix: Seq<char>)
    ensures
        text::has_at(p, prefix, 0) <==> laws::starts(p, prefix),
{
    if prefix.len() <= p.len() {
        assert(p.subrange(0, prefix.len() as int) =~= p.take(prefix.len() as int));
    }
}

/// What joining two paths gives: an absolute second path alone; otherwise the first
/// and then the second, with one slash between them that the first ends with or
/// that is put there, unless the first is empty.
pub proof fn joined_paths_are_next_to_each_other(base: Seq<char>, p: Seq<char>)
    ensures
        ({
            let r = path::joined(base, p);
            let absolute = p.len() > 0 && p[0] == '/';
            &&& absolute ==> r == p
            &&& !absolute ==> {
                &&& laws::starts(r, base)
                &&& laws::ends(r, p)
                &&& r.len() == base.len() + p.len() || r.len() == base.len() + 1 + p.len()
                &&& r.len() == base.len() + p.len() <==> base.len() == 0 || base.last() == '/'
                &&& base.len() > 0 ==> r[r.len() - p.len() - 1] == '/'
            }
        }),
{
    reveal_strlit("/");
    let r = path::joined(base, p);
    if !(p.len() > 0 && p[0] == '/') {
        assert(r.take(base.len() as int) =~= base);
        assert(r.skip(r.len() - p.len()) =~= p);
    }
}

/// What the pipeline for the tests is asked to do. To install: to check the tools,
/// and then to install under the test root. To update: to update there with every
/// revision and rebuild that was asked for, and then to run the tests. Otherwise
/// just to run the tests. The test root is absolute as it was given, or under the
/// root of the repository.
pub proof fn test_pipeline_keeps_the_command_line(cli: CcaTestsCli, repo_root: Seq<char>)
    ensures
        ({
            let pipeline = cli.pipeline(repo_root);
            let absolute = cli.test_root@.len() > 0 && cli.test_root@[0] == '/';
            let root = if absolute {
                cli.test_root@
            } else {
                path::joined(repo_root, cli.test_root@)
            };
            let wanted = cli.update_emu_subcmds;
            &&& cli.install_emu ==> {
                &&& pipeline.jobs.len() == 2
                &&& pipeline.deps =~= seq![JobDep { job: 1, on: 0 }]
                &&& pipeline.jobs[0].requests =~= seq![RequestView::CheckCcaEmuPrereq]
                &&& is_local_job(
                    pipeline.jobs[1],
                    repo_root,
                    true,
                    cli.verbose,
                    RequestView::InstallCcaEmu { test_root: root },
                )
            }
            &&& !cli.install_emu && cli.update_emu ==> {
                &&& pipeline.jobs.len() == 2
                &&& pipeline.deps =~= seq![JobDep { job: 1, on: 0 }]
                &&& pipeline.jobs[0].requests.len() == 1
                &&& pipeline.jobs[0].requests[0] matches RequestView::UpdateCcaEmu {
                    test_root,
                    sub_cmds,
                }
                &&& test_root == root
                &&& sub_cmds.rebuild_plane0_linux == wanted.rebuild
                &&& sub_cmds.rebuild_rootfs == wanted.rebuild
                &&& sub_cmds.tfa_rev is Some <==> wanted.tfa_rev is Some
                &&& wanted.tfa_rev matches Some(revision) ==> sub_cmds.tfa_rev->0 == revision@
                &&& sub_cmds.tfrmm_rev is Some <==> wanted.tfrmm_rev is Some
                &&& wanted.tfrmm_rev matches Some(revision) ==> sub_cmds.tfrmm_rev->0 == revision@
                &&& sub_cmds.plane0_linux_rev is Some <==> wanted.plane0_linux_rev is Some
                &&& wanted.plane0_linux_rev matches Some(revision)
                    ==> sub_cmds.plane0_linux_rev->0 == revision@
            }
            &&& !cli.install_emu && !cli.update_emu ==> pipeline.jobs.len() == 1
                && pipeline.deps.len() == 0
            &&& !cli.install_emu ==> is_local_job(
                pipeline.jobs.last(),
                repo_root,
                true,
                cli.verbose,
                RequestView::RunCcaTest { test_root: root },
            )
        }),
{
}

/// Whether a path is one of those without which the tests cannot run: Shrinkwrap's
/// program and its virtual environment, the kernel of plane 0, the root file
/// system, and the two programs that check it and make it larger.
pub open spec fn is_needed_by_tests(p: Seq<char>, test_root: Seq<char>, home: Seq<char>) -> bool {
    let shrinkwrap = path::joined(test_root, "shrinkwrap"@);
    ||| p == path::joined(shrinkwrap, "shrinkwrap/shrinkwrap"@)
    ||| p == path::joined(shrinkwrap, "venv"@)
    ||| p == path::joined(test_root, "plane0-linux/arch/arm64/boot/Image"@)
    ||| p == path::joined(path::joined(home, ".shrinkwrap/package/cca-3world"@), "rootfs.ext2"@)
    ||| p == path::joined(
        home,
        ".shrinkwrap/build/build/cca-3world/buildroot/host/sbin/e2fsck"@,
    )
    ||| p == path::joined(
        home,
        ".shrinkwrap/build/build/cca-3world/buildroot/host/sbin/resize2fs"@,
    )
}

/// Whether an action gives up unless a path exists.
pub open spec fn requires_path(action: ActionView, p: Seq<char>) -> bool {
    action matches ActionView::Require { path, .. } && path == p
}

/// Every path that the tests need has to exist before they are built, whatever
/// else exists.
pub proof fn needed_paths_are_checked(test_root: Seq<char>, home: Seq<char>, p: Seq<char>)
    requires
        is_needed_by_tests(p, test_root, home),
    ensures
        ({
            let steps = run_cca_test::check_steps(test_root, home);
            &&& steps.len() == 1
            &&& steps[0].path is None
            &&& exists|i: int|
                0 <= i < steps[0].present.len() && requires_path(
                    #[trigger] steps[0].present[i],
                    p,
                )
        }),
{
    let actions = run_cca_test::check_steps(test_root, home)[0].present;
    let shrinkwrap = path::joined(test_root, "shrinkwrap"@);
    assert(requires_path(actions[0], path::joined(shrinkwrap, "shrinkwrap/shrinkwrap"@)));
    assert(requires_path(actions[1], path::joined(shrinkwrap, "venv"@)));
    assert(requires_path(
        actions[2],
        path::joined(test_root, "plane0-linux/arch/arm64/boot/Image"@),
    ));
    assert(requires_path(
        actions[3],
        path::joined(path::joined(home, ".shrinkwrap/package/cca-3world"@), "rootfs.ext2"@),
    ));
    assert(requires_path(
        actions[4],
        path::joined(home, ".shrinkwrap/build/build/cca-3world/buildroot/host/sbin/e2fsck"@),
    ));
    assert(requires_path(
        actions[5],
        path::joined(home, ".shrinkwrap/build/build/cca-3world/buildroot/host/sbin/resize2fs"@),
    ));
}

/// Before the tests run, the root file system is checked: with e2fsck on that
/// file, which may have corrected errors but may not have failed otherwise.
pub proof fn rootfs_is_checked_before_the_tests(
    test_root: Seq<char>,
    home: Seq<char>,
    search_path: Option<Seq<char>>,
    simple_tmk: Seq<char>,
    tmk_vmm: Seq<char>,
)
    ensures
        ({
            let steps = run_cca_test::run_steps(test_root, home, search_path, simple_tmk, tmk_vmm);
            let e2fsck = path::joined(
                home,
                ".shrinkwrap/build/build/cca-3world/buildroot/host/sbin/e2fsck"@,
            );
            let disk = path::joined(
                path::joined(home, ".shrinkwrap/package/cca-3world"@),
                "rootfs.ext2"@,
            );
            &&& steps[0].present[0] matches ActionView::Run { command, .. }
            &&& command.argv.len() == 3
            &&& command.argv[0] == "bash"@
            &&& command.argv[1] == "-c"@
            &&& laws::occurs(command.argv[2], e2fsck + " -fp "@ + disk + " || rc=$?\n"@)
            &&& laws::occurs(command.argv[2], "[ \"${rc:-0}\" -le 1 ] || exit \"$rc\"\n"@)
        }),
{
    let e2fsck = run_cca_test::e2fsck_bin(home);
    let disk = run_cca_test::rootfs_file(home);
    let script = run_cca_test::fsck_script(home);
    reveal_strlit(" || rc=$?\n                    [ \"${rc:-0}\" -le 1 ] || exit \"$rc\"\n                    ");
    reveal_strlit(" || rc=$?\n");
    reveal_strlit("                    ");
    reveal_strlit("[ \"${rc:-0}\" -le 1 ] || exit \"$rc\"\n");
    let start = "\n                    "@;
    let caught = " || rc=$?\n"@;
    let blank = "                    "@;
    let judged = "[ \"${rc:-0}\" -le 1 ] || exit \"$rc\"\n"@;
    assert(" || rc=$?\n                    [ \"${rc:-0}\" -le 1 ] || exit \"$rc\"\n                    "@
        =~= caught + blank + judged + blank);
    let part = e2fsck + " -fp "@ + disk + caught;
    assert(script =~= start + part + (blank + judged + blank));
    assert(laws::is_split(script, start, part, blank + judged + blank));
    assert(script =~= (start + part + blank) + judged + blank);
    assert(laws::is_split(script, start + part + blank, judged, blank));
}

/// The tests run last, on the root file system that was checked, made 1024 megabytes
/// large and given the files, in that order: Shrinkwrap's program runs the platform
/// with that file, in its virtual environment.
pub proof fn tests_run_on_the_prepared_rootfs(
    test_root: Seq<char>,
    home: Seq<char>,
    search_path: Option<Seq<char>>,
    simple_tmk: Seq<char>,
    tmk_vmm: Seq<char>,
)
    ensures
        ({
            let steps = run_cca_test::run_steps(test_root, home, search_path, simple_tmk, tmk_vmm);
            let actions = steps[0].present;
            let disk = path::joined(
                path::joined(home, ".shrinkwrap/package/cca-3world"@),
                "rootfs.ext2"@,
            );
            let shrinkwrap = path::joined(test_root, "shrinkwrap"@);
            &&& steps.len() == 1
            &&& steps[0].path is None
            &&& actions.len() == 4
            &&& laws::is_run_of(
                actions[1],
                seq![
                    path::joined(
                        home,
                        ".shrinkwrap/build/build/cca-3world/buildroot/host/sbin/resize2fs"@,
                    ),
                    disk,
                    "1024M"@,
                ],
            )
            &&& laws::is_run_of(
                actions[3],
                seq![
                    path::joined(shrinkwrap, "shrinkwrap/shrinkwrap"@),
                    "run"@,
                    "cca-3world.yaml"@,
                    "--rtvar"@,
                    "ROOTFS="@ + disk,
                ],
            )
            &&& actions[3] matches ActionView::Run { command, .. }
            &&& laws::is_in_venv(command, path::joined(shrinkwrap, "venv"@), search_path)
        }),
{
    reveal_strlit("");
    assert(""@ =~= Seq::<char>::empty());
}

/// A build uses as many jobs as the host runs at once, in decimal, and a single one
/// where that is not known.
pub proof fn builds_use_the_whole_host(parallelism: Option<usize>)
    ensures
        ({
            let jobs = kernel::job_count_text(parallelism);
            &&& jobs.len() > 0
            &&& parallelism matches Some(n) ==> text::digits_value(jobs) == n
            &&& parallelism is None ==> jobs =~= seq!['1']
        }),
{
    reveal_strlit("1");
    if let Some(n) = parallelism {
        text::decimal_is_the_number(n as nat);
    }
}

/// Before files are put into rootfs.ext2, that has to exist; then it is checked and
/// made 1024 megabytes large in a container that sees its directory, and the kernel
/// image is copied beside it, where it is there.
pub proof fn rootfs_is_prepared(
    rootfs_path: Seq<char>,
    toolchain_dir: Seq<char>,
    rootfs_dir: Seq<char>,
    rootfs_filename: Seq<char>,
    is_there: spec_fn(Seq<char>) -> bool,
)
    ensures
        ({
            let steps = shrinkwrap_run::prepare_steps(
                rootfs_path,
                Some(toolchain_dir),
                Some(rootfs_dir),
                Some(rootfs_filename),
            );
            let image = path::joined(
                path::joined(toolchain_dir, "OHCL-Linux-Kernel"@),
                "arch/arm64/boot/Image"@,
            );
            let scripts = steps[1].actions(is_there);
            &&& steps.len() == 3
            &&& steps[0].actions(is_there).len() == 1
            &&& requires_path(steps[0].actions(is_there)[0], rootfs_path)
            &&& scripts.len() == 2
            &&& scripts[0] matches ActionView::RunLeniently { command, .. }
            &&& command.argv.take(10) =~= container_words(rootfs_dir)
            &&& command.argv.len() == 11
            &&& laws::ends(command.argv[10], " && e2fsck -fp "@ + rootfs_filename)
            &&& scripts[1] matches ActionView::RunLeniently { command, .. }
            &&& command.argv.take(10) =~= container_words(rootfs_dir)
            &&& command.argv.len() == 11
            &&& laws::ends(
                command.argv[10],
                " && e2fsck -fp "@ + rootfs_filename + " && resize2fs "@ + rootfs_filename
                    + " 1024M"@,
            )
            &&& is_there(image) ==> {
                &&& steps[2].actions(is_there).len() == 1
                &&& steps[2].actions(is_there)[0] matches ActionView::Copy { from, to, .. }
                &&& from == image
                &&& to == path::joined(rootfs_dir, "Image_ohcl"@)
            }
            &&& !is_there(image) ==> steps[2].actions(is_there).len() == 0
        }),
{
    reveal_strlit("apt-get update && apt-get install -y e2fsprogs && e2fsck -fp ");
    reveal_strlit("apt-get update && apt-get install -y e2fsprogs");
    reveal_strlit(" && e2fsck -fp ");
    let install = "apt-get update && apt-get install -y e2fsprogs"@;
    let check = " && e2fsck -fp "@ + rootfs_filename;
    assert("apt-get update && apt-get install -y e2fsprogs && e2fsck -fp "@ =~= install
        + " && e2fsck -fp "@);
    let first = shrinkwrap_run::check_script(rootfs_filename);
    assert(first =~= install + check);
    assert(first.skip(first.len() - check.len()) =~= check);
    let second = shrinkwrap_run::resize_script(rootfs_filename);
    let tail = " && e2fsck -fp "@ + rootfs_filename + " && resize2fs "@ + rootfs_filename
        + " 1024M"@;
    assert(second =~= install + tail);
    assert(second.skip(second.len() - tail.len()) =~= tail);
}

/// The words that run a script in a container that sees a directory, up to the
/// script.
pub open spec fn container_words(dir: Seq<char>) -> Seq<Seq<char>> {
    seq![
        "docker"@,
        "run"@,
        "--rm"@,
        "-v"@,
        dir + ":"@ + dir,
        "-w"@,
        dir,
        "ubuntu:24.04"@,
        "bash"@,
        "-lc"@,
    ]
}

} // verus!
