use nfty::project::hooks::{
    hook_types, install_custom_hooks, install_plan, HookStep, HookType, DISPATCHER_SCRIPT,
    LFS_POST_MERGE, BRANCH_CLEAN,
};
use nfty::project::{transfer_failed, ParseError, Project, Protocol, SyncError, SyncStep};
use nfty::util::Git;

fn ssh_matches(value: &str) -> bool {
    match Project::from(value) {
        Ok(p) => p.protocol() == &Protocol::Ssh,
        Err(_) => false,
    }
}

#[test]
fn test_ssh_project_regex() {
    assert!(ssh_matches("naftulikay/titan"));
    assert!(ssh_matches("naftulikay/titan.git"));
    assert!(ssh_matches("github.com:naftulikay/titan"));
    assert!(ssh_matches("github.com:naftulikay/titan.git"));
    assert!(ssh_matches("git@github.com:naftulikay/titan"));
    assert!(ssh_matches("git@github.com:naftulikay/titan.git"));

    // with a dash please
    assert!(ssh_matches("naftulikay/ansible-role-rust-dev"));

    let project = Project::from("naftulikay/ansible-role-rust-dev").unwrap();
    assert_eq!("naftulikay", project.owner());
    assert_eq!("ansible-role-rust-dev", project.repository());
}

#[test]
fn test_project_from_https() {
    let repositories = ["nfty", "ansible-role-vim-personal", "phatnoise.rs"];

    for repository in repositories.iter() {
        let project = Project::from(&format!("https://github.com/naftulikay/{}", &repository)).unwrap();
        assert_eq!(project.protocol(), &Protocol::Https);
        assert_eq!(project.host(), "github.com");
        assert_eq!(project.owner(), "naftulikay");
        assert_eq!(&project.repository(), repository);
    }
}

#[test]
fn test_project_from_ssh() {
    let repositories = ["nfty", "ansible-role-vim-personal", "phatnoise.rs"];

    for repository in repositories.iter() {
        // user and repository only
        let project = Project::from(&format!("naftulikay/{}", &repository)).unwrap();
        assert_eq!(project.protocol(), &Protocol::Ssh);
        assert_eq!(project.user(), "git");
        assert_eq!(project.host(), "github.com");
        assert_eq!(project.owner(), "naftulikay");
        assert_eq!(&project.repository(), repository);

        // hostname, owner, repository
        let project = Project::from(&format!("github.com:naftulikay/{}", &repository)).unwrap();
        assert_eq!(project.protocol(), &Protocol::Ssh);
        assert_eq!(project.user(), "git");
        assert_eq!(project.host(), "github.com");
        assert_eq!(project.owner(), "naftulikay");
        assert_eq!(&project.repository(), repository);

        // user, hostname, owner, repository
        let project = Project::from(&format!("git@github.com:naftulikay/{}", &repository)).unwrap();
        assert_eq!(project.protocol(), &Protocol::Ssh);
        assert_eq!(project.user(), "git");
        assert_eq!(project.host(), "github.com");
        assert_eq!(project.owner(), "naftulikay");
        assert_eq!(&project.repository(), repository);

        // user, hostname, owner, repository, postfix
        let project = Project::from(&format!("git@github.com:naftulikay/{}.git", &repository)).unwrap();
        assert_eq!(project.protocol(), &Protocol::Ssh);
        assert_eq!(project.user(), "git");
        assert_eq!(project.host(), "github.com");
        assert_eq!(project.owner(), "naftulikay");
        assert_eq!(&project.repository(), repository);
    }
}

#[test]
fn https_with_and_without_suffix_agree() {
    for input in ["https://gitlab.example.org/team/tool", "https://gitlab.example.org/team/tool.git"] {
        let p = Project::from(input).unwrap();
        assert_eq!(p.protocol(), &Protocol::Https);
        assert_eq!(p.host(), "gitlab.example.org");
        assert_eq!(p.owner(), "team");
        assert_eq!(p.repository(), "tool");
        assert_eq!(p.url(), "https://gitlab.example.org/team/tool");
    }
}

#[test]
fn ssh_variants_with_explicit_host_and_user() {
    let bare = Project::from("team/tool.git").unwrap();
    assert_eq!(bare.host(), "github.com");
    assert_eq!(bare.user(), "git");
    assert_eq!(bare.url(), "git@github.com:team/tool");

    let hosted = Project::from("git.example.org:team/tool").unwrap();
    assert_eq!(hosted.host(), "git.example.org");
    assert_eq!(hosted.user(), "git");

    let slashed = Project::from("git.example.org/team/tool").unwrap();
    assert_eq!(slashed.protocol(), &Protocol::Ssh);
    assert_eq!(slashed.host(), "git.example.org");
    assert_eq!(slashed.owner(), "team");

    let full = Project::from("deploy@git.example.org:team/tool.git").unwrap();
    assert_eq!(full.user(), "deploy");
    assert_eq!(full.host(), "git.example.org");
    assert_eq!(full.owner(), "team");
    assert_eq!(full.repository(), "tool");
    assert_eq!(full.url(), "deploy@git.example.org:team/tool");
}

#[test]
fn suffix_is_stripped_once() {
    let p = Project::from("team/tool.git.git").unwrap();
    assert_eq!(p.repository(), "tool.git");
}

#[test]
fn malformed_input_is_rejected() {
    match Project::from("not a valid project") {
        Err(ParseError::InvalidFormat(raw)) => assert_eq!(raw, "not a valid project"),
        Ok(_) => panic!("resolved a malformed identifier"),
    }
    assert!(Project::from("owner/").is_err());
    assert!(Project::from("/repo").is_err());
    assert!(Project::from("a/b/c/d").is_err());
    assert!(Project::from("owner/re po").is_err());
    assert!(Project::from("").is_err());
}

#[test]
fn local_path_is_pure_and_tracks_each_field() {
    let p = Project::from("naftulikay/titan").unwrap();
    assert_eq!(p.dir("/home/me/devel/src"), "/home/me/devel/src/github.com/naftulikay/titan");
    assert_eq!(p.dir("/home/me/devel/src"), p.dir("/home/me/devel/src"));
    assert_eq!(p.dir("/root/"), "/root/github.com/naftulikay/titan");
    let other_host = Project::from("gitlab.com:naftulikay/titan").unwrap();
    let other_owner = Project::from("someone/titan").unwrap();
    let other_repo = Project::from("naftulikay/gro").unwrap();
    for q in [other_host, other_owner, other_repo] {
        assert_ne!(p.dir("/r"), q.dir("/r"));
    }
}

#[test]
fn second_sync_opens_without_cloning() {
    let p = Project::from("naftulikay/titan").unwrap();
    match p.clone_plan("/src", false) {
        SyncStep::Clone { url, path, ssh_user } => {
            assert_eq!(url, "git@github.com:naftulikay/titan");
            assert_eq!(path, "/src/github.com/naftulikay/titan");
            assert_eq!(ssh_user, Some("git".to_string()));
        }
        SyncStep::Open { .. } => panic!("expected a clone"),
    }
    assert_eq!(
        p.clone_plan("/src", true),
        SyncStep::Open { path: "/src/github.com/naftulikay/titan".to_string() }
    );
    let https = Project::from("https://github.com/naftulikay/titan").unwrap();
    match https.clone_plan("/src", false) {
        SyncStep::Clone { ssh_user, .. } => assert_eq!(ssh_user, None),
        SyncStep::Open { .. } => panic!("expected a clone"),
    }
}

#[test]
fn transfer_failure_message_is_trimmed() {
    assert_eq!(
        transfer_failed("  failed to resolve address\n"),
        SyncError::TransferFailed("failed to resolve address".to_string())
    );
    assert_eq!(transfer_failed(" \t"), SyncError::TransferFailed(String::new()));
}

#[test]
fn progress_is_unified() {
    assert_eq!(Git::clone_progress(50, 25, 100), 38);
    assert_eq!(Git::clone_progress(50, 25, 0), 0);
    assert_eq!(Git::clone_progress(0, 0, 0), 0);
    assert_eq!(Git::clone_progress(100, 100, 100), 100);
    assert_eq!(Git::clone_progress(1, 0, 3), 17);
    assert_eq!(Git::clone_progress(0, 0, 7), 0);
}

#[test]
fn hook_installation_plan() {
    let types = hook_types();
    assert_eq!(types.len(), 14);
    assert_eq!(types[0].name(), "applypatch-msg");
    assert!(types.contains(&HookType::PostUpdate));
    let steps = install_plan("/repo");
    assert_eq!(steps[0], HookStep::EnsureDir { path: "/repo/.git/hooks".to_string() });
    assert_eq!(steps[1], HookStep::EnsureDir { path: "/repo/.git/hooks/applypatch-msg.d".to_string() });
    assert_eq!(
        steps[2],
        HookStep::WriteFile {
            path: "/repo/.git/hooks/applypatch-msg".to_string(),
            content: DISPATCHER_SCRIPT.to_string(),
        }
    );
    assert!(steps.contains(&HookStep::WriteFile {
        path: "/repo/.git/hooks/post-merge.d/90-branch-clean.sh".to_string(),
        content: BRANCH_CLEAN.to_string(),
    }));
    assert!(steps.contains(&HookStep::WriteFile {
        path: "/repo/.git/hooks/post-merge.d/10-git-lfs.sh".to_string(),
        content: LFS_POST_MERGE.to_string(),
    }));
    // 1 hooks dir + 14 * (dir + dispatcher) + 5 catalog scripts
    assert_eq!(steps.len(), 1 + 28 + 5);
}

#[test]
fn hook_installation_is_idempotent() {
    let first = install_plan("/repo");
    let second = install_plan("/repo");
    assert_eq!(first, second);
    let mut files: Vec<&String> = first
        .iter()
        .filter_map(|s| match s {
            HookStep::WriteFile { path, .. } => Some(path),
            HookStep::EnsureDir { .. } => None,
        })
        .collect();
    let n = files.len();
    files.sort();
    files.dedup();
    assert_eq!(files.len(), n);
}

#[test]
fn catalog_scripts_per_hook() {
    assert_eq!(install_custom_hooks(HookType::PostMerge).len(), 2);
    assert_eq!(install_custom_hooks(HookType::PrePush)[0].file_name, "10-git-lfs.sh");
    assert!(install_custom_hooks(HookType::PreCommit).is_empty());
}

#[test]
fn configure_plans_into_project_dir() {
    let p = Project::from("naftulikay/titan").unwrap();
    assert_eq!(p.configure("/src"), install_plan("/src/github.com/naftulikay/titan"));
}
