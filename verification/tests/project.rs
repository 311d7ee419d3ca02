use rope::project::{
    absolute, git_output, join_path, path_parts, same_path, ContextFile, ProjectState, ProjectUpdate,
};

fn project() -> ProjectState {
    ProjectState {
        cwd: "/work".into(),
        ..ProjectState::default()
    }
}

#[test]
fn files_enter_and_leave_the_context() {
    let mut project = project();
    assert_eq!(project.add("/work/b".into(), true), Ok(()));
    assert_eq!(project.add("/work/a-b".into(), true), Ok(()));
    assert_eq!(project.add("/work/a/c".into(), true), Ok(()));
    assert_eq!(project.add("/work/./b".into(), true), Ok(()));
    assert_eq!(project.context, ["/work/a/c", "/work/a-b", "/work/b"]);
    assert_eq!(
        project.add("/work/none".into(), false).unwrap_err(),
        "context file not found: /work/none"
    );
    assert_eq!(project.drop("/work//b", "b"), Ok(()));
    assert_eq!(project.context, ["/work/a/c", "/work/a-b"]);
    assert_eq!(project.drop("/work/b", "b").unwrap_err(), "file is not in context: b");
}

#[test]
fn paths_are_told_apart_by_their_parts() {
    assert_eq!(path_parts("/a//b/./c/"), ["a", "b", "c"]);
    assert!(same_path("/a/b", "/a/./b/"));
    assert!(!same_path("/a/../b", "/b"));
    assert!(!same_path("/a", "/a/b"));
}

#[test]
fn instructions_and_files_make_the_prompt() {
    let mut project = project();
    assert_eq!(project.prompt(None, None, &vec![]), None);
    assert_eq!(
        project.prompt(Some("be brief"), None, &vec![]).as_deref(),
        Some("Global instructions (~/.config/rope/AGENTS.md):\nbe brief")
    );
    project.add("/work/a.rs".into(), true).unwrap();
    let files = vec![ContextFile {
        name: "a.rs".into(),
        content: "fn a() {}".into(),
    }];
    assert_eq!(
        project.prompt(Some("be brief"), Some("use tabs"), &files).unwrap(),
        "Global instructions (~/.config/rope/AGENTS.md):\nbe brief\n\nProject instructions (AGENTS.md):\nuse tabs\n\nCurrent working directory: /work\nExplicit context files:\n\n--- a.rs ---\nfn a() {}"
    );
}

#[test]
fn git_is_asked() {
    assert_eq!(git_output(true, &b" M a.rs\n".to_vec()).unwrap(), " M a.rs\n");
    assert_eq!(git_output(true, &vec![b'a', 0xff]).unwrap(), "a\u{fffd}");
    assert_eq!(git_output(false, &vec![]).unwrap_err(), "not a git repository");
}

#[test]
fn updates_are_numbered() {
    let mut state = project();
    state.git_diff = "old".into();
    state.git_diff_path = Some("a.rs".into());
    let first = ProjectUpdate::new(state);
    assert_eq!(first.seq, 0);
    let next = first.refreshed(" M b.rs\n".into());
    assert_eq!(next.seq, 1);
    assert_eq!(next.project.git_status, " M b.rs\n");
    assert_eq!(next.project.git_diff, "");
    assert_eq!(next.project.git_diff_path, None);
    assert_eq!(next.project.cwd, "/work");
}

#[test]
fn paths_are_taken_from_the_directory() {
    assert_eq!(join_path("/work", "a.rs"), "/work/a.rs");
    assert_eq!(join_path("/", "a.rs"), "/a.rs");
    assert_eq!(join_path("", "a.rs"), "a.rs");
    assert_eq!(absolute("/work", "/etc/hosts", true), "/etc/hosts");
    assert_eq!(absolute("/work", "src/lib.rs", false), "/work/src/lib.rs");
}
