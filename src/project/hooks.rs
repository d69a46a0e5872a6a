//! Layered git hooks: for each hook type a dispatcher at `.git/hooks/<type>` runs the numbered
//! scripts of `.git/hooks/<type>.d/` in order, so that scripts can be added to a hook without
//! overwriting the ones already there.
use vstd::prelude::*;
use vstd::string::StringExecFns;

use crate::project::{join, join_path};

verus! {

/// The permissions of every file the installer writes: read, write and execute for the owner.
pub const HOOK_MODE: u32 = 0o700;

/// What git runs for each hook type: every executable file of the hook's `.d` directory, in
/// lexical order, each with the hook's arguments and standard input; the first one that fails
/// fails the hook.
pub const DISPATCHER_SCRIPT: &'static str = r#"#!/usr/bin/env bash
# Runs every executable file of this hook's .d directory in lexical order, handing each the
# hook's arguments and standard input. Stops at, and fails with, the first that fails.
set -e

LC_COLLATE=C
hook_dir="$(dirname "$0")/$(basename "$0").d"
input="$(mktemp)"
trap 'rm -f "$input"' EXIT

if [ ! -t 0 ]; then
    cat > "$input"
fi

for script in "$hook_dir"/*; do
    if [ -f "$script" ] && [ -x "$script" ]; then
        "$script" "$@" < "$input"
    fi
done
"#;

/// The file name of the large-file-storage scripts.
pub const LFS_SCRIPT_NAME: &'static str = "10-git-lfs.sh";

/// The file name of the branch cleanup script.
pub const BRANCH_CLEAN_SCRIPT_NAME: &'static str = "90-branch-clean.sh";

pub const LFS_POST_CHECKOUT: &'static str = r#"#!/bin/sh
command -v git-lfs >/dev/null 2>&1 || { echo >&2 "This repository is configured for Git LFS but 'git-lfs' was not found on your path. If you no longer wish to use Git LFS, remove this hook by deleting '.git/hooks/post-checkout.d/10-git-lfs.sh'."; exit 2; }
git lfs post-checkout "$@"
"#;

pub const LFS_POST_COMMIT: &'static str = r#"#!/bin/sh
command -v git-lfs >/dev/null 2>&1 || { echo >&2 "This repository is configured for Git LFS but 'git-lfs' was not found on your path. If you no longer wish to use Git LFS, remove this hook by deleting '.git/hooks/post-commit.d/10-git-lfs.sh'."; exit 2; }
git lfs post-commit "$@"
"#;

pub const LFS_POST_MERGE: &'static str = r#"#!/bin/sh
command -v git-lfs >/dev/null 2>&1 || { echo >&2 "This repository is configured for Git LFS but 'git-lfs' was not found on your path. If you no longer wish to use Git LFS, remove this hook by deleting '.git/hooks/post-merge.d/10-git-lfs.sh'."; exit 2; }
git lfs post-merge "$@"
"#;

pub const LFS_PRE_PUSH: &'static str = r#"#!/bin/sh
command -v git-lfs >/dev/null 2>&1 || { echo >&2 "This repository is configured for Git LFS but 'git-lfs' was not found on your path. If you no longer wish to use Git LFS, remove this hook by deleting '.git/hooks/pre-push.d/10-git-lfs.sh'."; exit 2; }
git lfs pre-push "$@"
"#;

/// Deletes the local branches that are merged into the current one, but for the usual
/// long-lived branches.
pub const BRANCH_CLEAN: &'static str = r#"#!/usr/bin/env bash
# Deletes the local branches merged into the current branch, keeping the current branch and
# the usual long-lived ones.
set -e

current="$(git symbolic-ref --quiet --short HEAD || true)"

git for-each-ref --format='%(refname:short)' --merged HEAD refs/heads/ | while read -r branch; do
    case "$branch" in
        "$current"|master|main|develop) ;;
        *) git branch -d "$branch" ;;
    esac
done
"#;

/// The client-side hook types that the installer manages.
#[derive(Debug, Clone, Copy, PartialEq, Eq, Structural)]
pub enum HookType {
    ApplypatchMsg,
    CommitMsg,
    PostApplypatch,
    PostCheckout,
    PostCommit,
    PostMerge,
    PostRewrite,
    PostUpdate,
    PreApplypatch,
    PreAutoGc,
    PreCommit,
    PrePush,
    PreRebase,
    PrepareCommitMsg,
}

/// The file name git gives a hook type.
pub open spec fn hook_name(h: HookType) -> Seq<char> {
    match h {
        HookType::ApplypatchMsg => "applypatch-msg"@,
        HookType::CommitMsg => "commit-msg"@,
        HookType::PostApplypatch => "post-applypatch"@,
        HookType::PostCheckout => "post-checkout"@,
        HookType::PostCommit => "post-commit"@,
        HookType::PostMerge => "post-merge"@,
        HookType::PostRewrite => "post-rewrite"@,
        HookType::PostUpdate => "post-update"@,
        HookType::PreApplypatch => "pre-applypatch"@,
        HookType::PreAutoGc => "pre-auto-gc"@,
        HookType::PreCommit => "pre-commit"@,
        HookType::PrePush => "pre-push"@,
        HookType::PreRebase => "pre-rebase"@,
        HookType::PrepareCommitMsg => "prepare-commit-msg"@,
    }
}

/// Every hook type, in the order in which the installer handles them.
pub open spec fn catalog() -> Seq<HookType> {
    seq![
        HookType::ApplypatchMsg,
        HookType::CommitMsg,
        HookType::PostApplypatch,
        HookType::PostCheckout,
        HookType::PostCommit,
        HookType::PostMerge,
        HookType::PostRewrite,
        HookType::PostUpdate,
        HookType::PreApplypatch,
        HookType::PreAutoGc,
        HookType::PreCommit,
        HookType::PrePush,
        HookType::PreRebase,
        HookType::PrepareCommitMsg,
    ]
}

/// A script that the installer places in a hook's `.d` directory: its file name, whose
/// number orders it among its neighbours, and its text.
pub struct HookScript {
    pub file_name: &'static str,
    pub content: &'static str,
}

impl View for HookScript {
    type V = (Seq<char>, Seq<char>);

    open spec fn view(&self) -> (Seq<char>, Seq<char>) {
        (self.file_name@, self.content@)
    }
}

/// The scripts of the catalog for a hook type: large-file-storage support for
/// `post-checkout`, `post-commit`, `post-merge` and `pre-push`, and branch cleanup after
/// `post-merge`.
pub open spec fn catalog_scripts(h: HookType) -> Seq<(Seq<char>, Seq<char>)> {
    match h {
        HookType::PostCheckout => seq![(LFS_SCRIPT_NAME@, LFS_POST_CHECKOUT@)],
        HookType::PostCommit => seq![(LFS_SCRIPT_NAME@, LFS_POST_COMMIT@)],
        HookType::PostMerge => seq![
            (LFS_SCRIPT_NAME@, LFS_POST_MERGE@),
            (BRANCH_CLEAN_SCRIPT_NAME@, BRANCH_CLEAN@),
        ],
        HookType::PrePush => seq![(LFS_SCRIPT_NAME@, LFS_PRE_PUSH@)],
        _ => seq![],
    }
}

impl HookType {
    /// The file name git gives this hook type.
    pub fn name(&self) -> (r: &'static str)
        ensures
            r@ == hook_name(*self),
    {
        match self {
            HookType::ApplypatchMsg => "applypatch-msg",
            HookType::CommitMsg => "commit-msg",
            HookType::PostApplypatch => "post-applypatch",
            HookType::PostCheckout => "post-checkout",
            HookType::PostCommit => "post-commit",
            HookType::PostMerge => "post-merge",
            HookType::PostRewrite => "post-rewrite",
            HookType::PostUpdate => "post-update",
            HookType::PreApplypatch => "pre-applypatch",
            HookType::PreAutoGc => "pre-auto-gc",
            HookType::PreCommit => "pre-commit",
            HookType::PrePush => "pre-push",
            HookType::PreRebase => "pre-rebase",
            HookType::PrepareCommitMsg => "prepare-commit-msg",
        }
    }
}

/// Every hook type, in the order in which the installer handles them.
pub fn hook_types() -> (v: Vec<HookType>)
    ensures
        v@ == catalog(),
{
    let mut v: Vec<HookType> = Vec::new();
    v.push(HookType::ApplypatchMsg);
    v.push(HookType::CommitMsg);
    v.push(HookType::PostApplypatch);
    v.push(HookType::PostCheckout);
    v.push(HookType::PostCommit);
    v.push(HookType::PostMerge);
    v.push(HookType::PostRewrite);
    v.push(HookType::PostUpdate);
    v.push(HookType::PreApplypatch);
    v.push(HookType::PreAutoGc);
    v.push(HookType::PreCommit);
    v.push(HookType::PrePush);
    v.push(HookType::PreRebase);
    v.push(HookType::PrepareCommitMsg);
    assert(v@ =~= catalog());
    v
}

/// The scripts that the catalog holds for `hook`, in the order in which they are written.
pub fn install_custom_hooks(hook: HookType) -> (r: Vec<HookScript>)
    ensures
        r@.map_values(|s: HookScript| s@) == catalog_scripts(hook),
{
    let mut r: Vec<HookScript> = Vec::new();
    match hook {
        HookType::PostCheckout => {
            r.push(HookScript { file_name: LFS_SCRIPT_NAME, content: LFS_POST_CHECKOUT });
        },
        HookType::PostCommit => {
            r.push(HookScript { file_name: LFS_SCRIPT_NAME, content: LFS_POST_COMMIT });
        },
        HookType::PostMerge => {
            r.push(HookScript { file_name: LFS_SCRIPT_NAME, content: LFS_POST_MERGE });
            r.push(HookScript { file_name: BRANCH_CLEAN_SCRIPT_NAME, content: BRANCH_CLEAN });
        },
        HookType::PrePush => {
            r.push(HookScript { file_name: LFS_SCRIPT_NAME, content: LFS_PRE_PUSH });
        },
        _ => {},
    }
    assert(r@.map_values(|s: HookScript| s@) =~= catalog_scripts(hook));
    r
}

/// One filesystem change of the installation.
#[derive(Debug, Clone, PartialEq, Eq)]
pub enum HookStep {
    /// Create the directory `path` where it does not exist yet.
    EnsureDir { path: String },
    /// Write `content` to the file `path`, replacing it whole, with the mode `HOOK_MODE`.
    WriteFile { path: String, content: String },
}

/// What a `HookStep` does.
pub enum StepView {
    Dir(Seq<char>),
    File(Seq<char>, Seq<char>),
}

impl View for HookStep {
    type V = StepView;

    open spec fn view(&self) -> StepView {
        match self {
            HookStep::EnsureDir { path } => StepView::Dir(path@),
            HookStep::WriteFile { path, content } => StepView::File(path@, content@),
        }
    }
}

/// The `.d` directory of a hook type under `hooks_dir`.
pub open spec fn scripts_dir(hooks_dir: Seq<char>, h: HookType) -> Seq<char> {
    join_path(hooks_dir, hook_name(h) + ".d"@)
}

/// The steps for one hook type: its `.d` directory, its dispatcher, then its catalog scripts.
pub open spec fn hook_steps(hooks_dir: Seq<char>, h: HookType) -> Seq<StepView> {
    seq![
        StepView::Dir(scripts_dir(hooks_dir, h)),
        StepView::File(join_path(hooks_dir, hook_name(h)), DISPATCHER_SCRIPT@),
    ] + catalog_scripts(h).map_values(
        |s: (Seq<char>, Seq<char>)| StepView::File(join_path(scripts_dir(hooks_dir, h), s.0), s.1),
    )
}

/// The steps for each of `hooks`, one hook type after the other.
pub open spec fn steps_for(hooks_dir: Seq<char>, hooks: Seq<HookType>) -> Seq<StepView>
    decreases hooks.len(),
{
    if hooks.len() == 0 {
        seq![]
    } else {
        steps_for(hooks_dir, hooks.drop_last()) + hook_steps(hooks_dir, hooks.last())
    }
}

/// The hooks directory of the repository checked out at `repo`.
pub open spec fn hooks_dir_of(repo: Seq<char>) -> Seq<char> {
    join_path(join_path(repo, ".git"@), "hooks"@)
}

/// The installation into the repository at `repo`: its hooks directory, then the steps of
/// every hook type of the catalog.
pub open spec fn install_steps(repo: Seq<char>) -> Seq<StepView> {
    seq![StepView::Dir(hooks_dir_of(repo))] + steps_for(hooks_dir_of(repo), catalog())
}

/// The steps that install the layered hooks into the repository checked out at `path`.
pub fn install_plan(path: &str) -> (r: Vec<HookStep>)
    ensures
        r@.map_values(|s: HookStep| s@) == install_steps(path@),
{
    let hooks_dir = join(join(String::from_str(path), ".git"), "hooks");
    let ghost dir = hooks_dir@;
    let mut r: Vec<HookStep> = Vec::new();
    r.push(HookStep::EnsureDir { path: hooks_dir.clone() });
    let hooks = hook_types();
    let mut i: usize = 0;
    assert(r@.map_values(|s: HookStep| s@) =~= seq![StepView::Dir(dir)] + steps_for(
        dir,
        hooks@.subrange(0, 0),
    ));
    while i < hooks.len()
        invariant
            i <= hooks@.len(),
            hooks@ == catalog(),
            hooks_dir@ == dir,
            dir == hooks_dir_of(path@),
            r@.map_values(|s: HookStep| s@) == seq![StepView::Dir(dir)] + steps_for(
                dir,
                hooks@.subrange(0, i as int),
            ),
        decreases hooks@.len() - i,
    {
        let hook = hooks[i];
        let ghost before = r@.map_values(|s: HookStep| s@);
        let name = hook.name();
        let scripts_d = join(hooks_dir.clone(), String::from_str(name).concat(".d").as_str());
        r.push(HookStep::EnsureDir { path: scripts_d.clone() });
        r.push(
            HookStep::WriteFile {
                path: join(hooks_dir.clone(), name),
                content: String::from_str(DISPATCHER_SCRIPT),
            },
        );
        let scripts = install_custom_hooks(hook);
        let ghost cat = catalog_scripts(hook);
        let mut j: usize = 0;
        while j < scripts.len()
            invariant
                j <= scripts@.len(),
                scripts@.map_values(|s: HookScript| s@) == cat,
                scripts_d@ == scripts_dir(dir, hook),
                r@.map_values(|s: HookStep| s@) == before + seq![
                    StepView::Dir(scripts_dir(dir, hook)),
                    StepView::File(join_path(dir, hook_name(hook)), DISPATCHER_SCRIPT@),
                ] + cat.subrange(0, j as int).map_values(
                    |s: (Seq<char>, Seq<char>)|
                        StepView::File(join_path(scripts_dir(dir, hook), s.0), s.1),
                ),
            decreases scripts@.len() - j,
        {
            let script = &scripts[j];
            assert(cat[j as int] == script@);
            let ghost prev = r@.map_values(|s: HookStep| s@);
            let step = HookStep::WriteFile {
                path: join(scripts_d.clone(), script.file_name),
                content: String::from_str(script.content),
            };
            let ghost f = |s: (Seq<char>, Seq<char>)|
                StepView::File(join_path(scripts_dir(dir, hook), s.0), s.1);
            assert(step@ == f(cat[j as int]));
            r.push(step);
            assert(r@.map_values(|s: HookStep| s@) =~= prev.push(step@));
            assert(cat.subrange(0, j + 1).map_values(f) =~= cat.subrange(0, j as int).map_values(
                f,
            ).push(f(cat[j as int])));
            j = j + 1;
            assert(r@.map_values(|s: HookStep| s@) =~= before + seq![
                StepView::Dir(scripts_dir(dir, hook)),
                StepView::File(join_path(dir, hook_name(hook)), DISPATCHER_SCRIPT@),
            ] + cat.subrange(0, j as int).map_values(f));
        }
        i = i + 1;
        assert(hooks@.subrange(0, i as int).drop_last() =~= hooks@.subrange(0, i - 1));
        assert(cat.subrange(0, cat.len() as int) =~= cat);
        assert(r@.map_values(|s: HookStep| s@) =~= seq![StepView::Dir(dir)] + steps_for(
            dir,
            hooks@.subrange(0, i as int),
        ));
    }
    assert(hooks@.subrange(0, hooks@.len() as int) =~= hooks@);
    r
}

/// The part of a filesystem that the installation touches: directories, and files with their
/// contents.
pub struct FsModel {
    pub dirs: Set<Seq<char>>,
    pub files: Map<Seq<char>, Seq<char>>,
}

pub open spec fn apply_step(fs: FsModel, step: StepView) -> FsModel {
    match step {
        StepView::Dir(d) => FsModel { dirs: fs.dirs.insert(d), files: fs.files },
        StepView::File(p, c) => FsModel { dirs: fs.dirs, files: fs.files.insert(p, c) },
    }
}

/// The filesystem after `steps`, taken in order.
pub open spec fn apply_steps(fs: FsModel, steps: Seq<StepView>) -> FsModel
    decreases steps.len(),
{
    if steps.len() == 0 {
        fs
    } else {
        apply_step(apply_steps(fs, steps.drop_last()), steps.last())
    }
}

/// The directories that `steps` create.
pub open spec fn made_dirs(steps: Seq<StepView>) -> Set<Seq<char>>
    decreases steps.len(),
{
    if steps.len() == 0 {
        Set::empty()
    } else {
        match steps.last() {
            StepView::Dir(d) => made_dirs(steps.drop_last()).insert(d),
            StepView::File(_, _) => made_dirs(steps.drop_last()),
        }
    }
}

/// The files that `steps` leave written, each with the content written last.
pub open spec fn written(steps: Seq<StepView>) -> Map<Seq<char>, Seq<char>>
    decreases steps.len(),
{
    if steps.len() == 0 {
        Map::empty()
    } else {
        match steps.last() {
            StepView::Dir(_) => written(steps.drop_last()),
            StepView::File(p, c) => written(steps.drop_last()).insert(p, c),
        }
    }
}

proof fn lemma_apply_steps(fs: FsModel, steps: Seq<StepView>)
    ensures
        apply_steps(fs, steps) == (FsModel {
            dirs: fs.dirs + made_dirs(steps),
            files: fs.files.union_prefer_right(written(steps)),
        }),
    decreases steps.len(),
{
    if steps.len() == 0 {
        assert(fs.dirs + made_dirs(steps) =~= fs.dirs);
        assert(fs.files.union_prefer_right(written(steps)) =~= fs.files);
    } else {
        let init = steps.drop_last();
        lemma_apply_steps(fs, init);
        match steps.last() {
            StepView::Dir(d) => {
                assert(fs.dirs + made_dirs(init) + set![d] =~= fs.dirs + made_dirs(steps));
                assert((fs.dirs + made_dirs(init)).insert(d) =~= fs.dirs + made_dirs(steps));
            },
            StepView::File(p, c) => {
                assert(fs.files.union_prefer_right(written(init)).insert(p, c)
                    =~= fs.files.union_prefer_right(written(steps)));
            },
        }
    }
}

/// Installing twice leaves the filesystem as installing once does: the same dispatchers, with
/// the same bytes, and the same numbered scripts, none of them doubled.
pub proof fn lemma_install_idempotent(fs: FsModel, repo: Seq<char>)
    ensures
        apply_steps(apply_steps(fs, install_steps(repo)), install_steps(repo)) == apply_steps(
            fs,
            install_steps(repo),
        ),
{
    let steps = install_steps(repo);
    let once = apply_steps(fs, steps);
    lemma_apply_steps(fs, steps);
    lemma_apply_steps(once, steps);
    assert(once.dirs + made_dirs(steps) =~= once.dirs);
    assert(once.files.union_prefer_right(written(steps)) =~= once.files);
}

} // verus!
