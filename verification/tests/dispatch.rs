//! End-to-end runs against a real directory tree and a scripted executor.

use std::cell::RefCell;

use git_hooks_dispatch::change::ChangeEntry;
use git_hooks_dispatch::change::ChangeFlags;
use git_hooks_dispatch::executor::ExecError;
use git_hooks_dispatch::executor::Executor;
use git_hooks_dispatch::run::run;

struct ScriptedExecutor {
    codes: RefCell<Vec<i32>>,
    fail_spawn: bool,
    calls: RefCell<Vec<(String, String, Vec<String>)>>,
}

impl ScriptedExecutor {
    fn returning(codes: Vec<i32>) -> ScriptedExecutor {
        ScriptedExecutor {
            codes: RefCell::new(codes),
            fail_spawn: false,
            calls: RefCell::new(Vec::new()),
        }
    }

    fn failing_spawn() -> ScriptedExecutor {
        ScriptedExecutor {
            codes: RefCell::new(Vec::new()),
            fail_spawn: true,
            calls: RefCell::new(Vec::new()),
        }
    }
}

impl Executor for ScriptedExecutor {
    fn execute(
        &self,
        working_dir: &String,
        hook_path: &String,
        args: &Vec<String>,
    ) -> Result<i32, ExecError> {
        self.calls
            .borrow_mut()
            .push((working_dir.clone(), hook_path.clone(), args.clone()));
        if self.fail_spawn {
            return Err(ExecError {
                message: "spawn failed".to_string(),
            });
        }
        let mut codes = self.codes.borrow_mut();
        if codes.is_empty() {
            Ok(0)
        } else {
            Ok(codes.remove(0))
        }
    }
}

fn no_flags() -> ChangeFlags {
    Default::default()
}

fn staged_new(path: &str) -> ChangeEntry {
    ChangeEntry {
        path: path.to_string(),
        flags: ChangeFlags {
            index_new: true,
            ..no_flags()
        },
    }
}

fn untracked(path: &str) -> ChangeEntry {
    ChangeEntry {
        path: path.to_string(),
        flags: ChangeFlags {
            wt_new: true,
            ..no_flags()
        },
    }
}

fn temp_repo() -> (tempdir::TempDir, String) {
    let tmp = tempdir::TempDir::new("repo").unwrap();
    let root = tmp.path().to_str().unwrap().to_string();
    (tmp, root)
}

fn mkdir(root: &str, rel: &str) {
    fs_extra::dir::create_all(format!("{}/{}", root, rel), false).unwrap();
}

fn mkfile(root: &str, rel: &str) {
    fs_extra::file::write_all(&format!("{}/{}", root, rel), "x").unwrap();
}

fn names(list: &[&str]) -> Vec<String> {
    list.iter().map(|n| n.to_string()).collect()
}

#[test]
fn should_run_hook() {
    let (_tmp, root) = temp_repo();
    mkdir(&root, "1/git-hooks");
    mkfile(&root, "1/a");
    mkfile(&root, "1/git-hooks/pre-commit");

    let changes = vec![staged_new("1/a"), untracked("1/git-hooks/pre-commit")];
    let mock = ScriptedExecutor::returning(vec![0]);

    let status = run(
        &root,
        "pre-commit",
        &vec![],
        &mock,
        names(&["git-hooks"]),
        &changes,
    )
    .unwrap();

    assert_eq!(status, 0);
    let calls = mock.calls.borrow();
    assert_eq!(calls.len(), 1);
    assert_eq!(calls[0].0, format!("{}/1", root));
    assert_eq!(calls[0].1, format!("{}/1/git-hooks/pre-commit", root));
    assert_eq!(calls[0].2.len(), 0);
}

#[test]
fn single_staged_file_runs_one_hook_end_to_end() {
    let (_tmp, root) = temp_repo();
    mkdir(&root, "1/hooks");
    mkfile(&root, "1/a");
    mkfile(&root, "1/hooks/pre-commit");

    let changes = vec![staged_new("1/a")];
    let mock = ScriptedExecutor::returning(vec![0]);

    let status = run(
        &root,
        "pre-commit",
        &vec![],
        &mock,
        names(&["hooks"]),
        &changes,
    )
    .unwrap();

    assert_eq!(status, 0);
    let calls = mock.calls.borrow();
    assert_eq!(calls.len(), 1);
    assert_eq!(calls[0].0, format!("{}/1", root));
    assert_eq!(calls[0].1, format!("{}/1/hooks/pre-commit", root));
    assert_eq!(calls[0].2.len(), 0);
}

#[test]
fn should_run_hook_recursively() {
    let (_tmp, root) = temp_repo();
    mkdir(&root, "1/git-hooks");
    mkdir(&root, "1/2/git-hooks");
    mkfile(&root, "1/2/a");
    mkfile(&root, "1/git-hooks/pre-commit");
    mkfile(&root, "1/2/git-hooks/pre-commit");

    let changes = vec![staged_new("1/2/a")];
    let mock = ScriptedExecutor::returning(vec![0, 0]);

    let status = run(
        &root,
        "pre-commit",
        &vec![],
        &mock,
        names(&["git-hooks"]),
        &changes,
    )
    .unwrap();

    assert_eq!(status, 0);
    let calls = mock.calls.borrow();
    assert_eq!(calls.len(), 2);
    assert_eq!(calls[0].0, format!("{}/1/2", root));
    assert_eq!(calls[0].1, format!("{}/1/2/git-hooks/pre-commit", root));
    assert_eq!(calls[0].2.len(), 0);
    assert_eq!(calls[1].0, format!("{}/1", root));
    assert_eq!(calls[1].1, format!("{}/1/git-hooks/pre-commit", root));
    assert_eq!(calls[1].2.len(), 0);
}

#[test]
fn should_run_hook_once() {
    let (_tmp, root) = temp_repo();
    mkdir(&root, "1/git-hooks");
    mkfile(&root, "1/a");
    mkfile(&root, "1/b");
    mkfile(&root, "1/git-hooks/pre-commit");

    let changes = vec![staged_new("1/a"), staged_new("1/b")];
    let mock = ScriptedExecutor::returning(vec![0]);

    let status = run(
        &root,
        "pre-commit",
        &vec![],
        &mock,
        names(&["git-hooks"]),
        &changes,
    )
    .unwrap();

    assert_eq!(status, 0);
    assert_eq!(mock.calls.borrow().len(), 1);
}

#[test]
fn should_exit_if_hook_exit_with_error() {
    let (_tmp, root) = temp_repo();
    mkdir(&root, "1/git-hooks");
    mkfile(&root, "1/a");
    mkfile(&root, "1/git-hooks/pre-commit");

    let changes = vec![staged_new("1/a")];
    let mock = ScriptedExecutor::returning(vec![1]);

    let status_code = run(
        &root,
        "pre-commit",
        &vec![],
        &mock,
        names(&["git-hooks"]),
        &changes,
    )
    .unwrap();

    assert_eq!(status_code, 1);
    assert_eq!(mock.calls.borrow().len(), 1);
}

#[test]
fn should_not_execute_hook_in_root_directory() {
    let (_tmp, root) = temp_repo();
    mkdir(&root, "git-hooks");
    mkfile(&root, "git-hooks/pre-commit");
    mkdir(&root, "1/git-hooks");
    mkfile(&root, "1/a");
    mkfile(&root, "1/git-hooks/pre-commit");

    let changes = vec![staged_new("1/a")];
    let mock = ScriptedExecutor::returning(vec![0]);

    let status = run(
        &root,
        "pre-commit",
        &vec![],
        &mock,
        names(&["git-hooks"]),
        &changes,
    )
    .unwrap();

    assert_eq!(status, 0);
    let calls = mock.calls.borrow();
    assert_eq!(calls.len(), 1);
    assert_eq!(calls[0].0, format!("{}/1", root));
    assert_eq!(calls[0].1, format!("{}/1/git-hooks/pre-commit", root));
}

#[test]
fn hook_failure_code_propagates_and_halts() {
    let (_tmp, root) = temp_repo();
    mkdir(&root, "1/git-hooks");
    mkdir(&root, "1/2/git-hooks");
    mkfile(&root, "1/2/a");
    mkfile(&root, "1/git-hooks/pre-commit");
    mkfile(&root, "1/2/git-hooks/pre-commit");

    let changes = vec![staged_new("1/2/a")];
    let mock = ScriptedExecutor::returning(vec![3]);

    let status = run(
        &root,
        "pre-commit",
        &vec![],
        &mock,
        names(&["git-hooks"]),
        &changes,
    )
    .unwrap();

    assert_eq!(status, 3);
    let calls = mock.calls.borrow();
    assert_eq!(calls.len(), 1);
    assert_eq!(calls[0].1, format!("{}/1/2/git-hooks/pre-commit", root));
}

#[test]
fn executor_error_aborts_run() {
    let (_tmp, root) = temp_repo();
    mkdir(&root, "1/git-hooks");
    mkfile(&root, "1/a");
    mkfile(&root, "1/git-hooks/pre-commit");

    let changes = vec![staged_new("1/a")];
    let mock = ScriptedExecutor::failing_spawn();

    let result = run(
        &root,
        "pre-commit",
        &vec![],
        &mock,
        names(&["git-hooks"]),
        &changes,
    );

    assert!(result.is_err());
    assert_eq!(mock.calls.borrow().len(), 1);
}

#[test]
fn untracked_only_changes_trigger_no_hooks() {
    let (_tmp, root) = temp_repo();
    mkdir(&root, "1/git-hooks");
    mkfile(&root, "1/a");
    mkfile(&root, "1/git-hooks/pre-commit");

    let changes = vec![untracked("1/a")];
    let mock = ScriptedExecutor::returning(vec![0]);

    let status = run(
        &root,
        "pre-commit",
        &vec![],
        &mock,
        names(&["git-hooks"]),
        &changes,
    )
    .unwrap();

    assert_eq!(status, 0);
    assert_eq!(mock.calls.borrow().len(), 0);
}

#[test]
fn no_changes_is_success_without_execution() {
    let (_tmp, root) = temp_repo();
    mkdir(&root, "1/git-hooks");
    mkfile(&root, "1/git-hooks/pre-commit");

    let changes: Vec<ChangeEntry> = vec![];
    let mock = ScriptedExecutor::returning(vec![]);

    let status = run(
        &root,
        "pre-commit",
        &vec![],
        &mock,
        names(&["git-hooks"]),
        &changes,
    )
    .unwrap();

    assert_eq!(status, 0);
    assert_eq!(mock.calls.borrow().len(), 0);
}

#[test]
fn no_hooks_dir_names_is_success_without_execution() {
    let (_tmp, root) = temp_repo();
    mkdir(&root, "1/git-hooks");
    mkfile(&root, "1/a");
    mkfile(&root, "1/git-hooks/pre-commit");

    let changes = vec![staged_new("1/a")];
    let mock = ScriptedExecutor::returning(vec![]);

    let status = run(&root, "pre-commit", &vec![], &mock, vec![], &changes).unwrap();

    assert_eq!(status, 0);
    assert_eq!(mock.calls.borrow().len(), 0);
}

#[test]
fn forwards_arguments_verbatim() {
    let (_tmp, root) = temp_repo();
    mkdir(&root, "1/git-hooks");
    mkfile(&root, "1/a");
    mkfile(&root, "1/git-hooks/pre-commit");

    let changes = vec![staged_new("1/a")];
    let mock = ScriptedExecutor::returning(vec![0]);
    let args = vec!["--fast".to_string(), "extra".to_string()];

    let status = run(
        &root,
        "pre-commit",
        &args,
        &mock,
        names(&["git-hooks"]),
        &changes,
    )
    .unwrap();

    assert_eq!(status, 0);
    let calls = mock.calls.borrow();
    assert_eq!(calls.len(), 1);
    assert_eq!(calls[0].2, args);
}
