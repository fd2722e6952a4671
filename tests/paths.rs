use git_helper::paths::{
    find_project_root, get_global_config_dir, get_project_config_dir, global_config_file,
    global_template_file, is_git_repo, marker_path, project_config_file, project_template_file,
    template_file_name,
};

fn parts(p: &[&str]) -> Vec<String> {
    p.iter().map(|s| s.to_string()).collect()
}

#[test]
fn nearest_marked_ancestor_is_root() {
    let cwd = parts(&["/", "home", "ann", "proj", "src"]);
    let root = find_project_root(&cwd, &vec![false, true, false, true, false]);
    assert_eq!(root, Some(parts(&["/", "home", "ann", "proj"])));
    let root = find_project_root(&cwd, &vec![false, false, false, false, true]);
    assert_eq!(root, Some(cwd.clone()));
    assert_eq!(find_project_root(&cwd, &vec![false; 5]), None);
}

#[test]
fn git_repo_and_config_dirs() {
    let root = Some(parts(&["/", "p"]));
    assert!(is_git_repo(&root));
    assert!(!is_git_repo(&None));
    assert_eq!(get_project_config_dir(root), Some(parts(&["/", "p", ".git-helper"])));
    assert_eq!(get_project_config_dir(None), None);
    assert_eq!(get_global_config_dir(Some(parts(&["/", "cfg"]))), Some(parts(&["/", "cfg", "git-helper"])));
    assert_eq!(get_global_config_dir(None), None);
}

#[test]
fn file_layout() {
    assert_eq!(marker_path(&parts(&["/", "p"])), parts(&["/", "p", ".git"]));
    assert_eq!(project_config_file(parts(&["/", "p"])), parts(&["/", "p", "git-helper.toml"]));
    assert_eq!(global_config_file(parts(&["/", "c"])), parts(&["/", "c", "git-helper", "config.toml"]));
    assert_eq!(template_file_name("fix"), "fix.txt");
    assert_eq!(
        project_template_file(parts(&["/", "p"]), "fix"),
        parts(&["/", "p", ".git-helper", "templates", "fix.txt"])
    );
    assert_eq!(
        global_template_file(parts(&["/", "c"]), "feat"),
        parts(&["/", "c", "git-helper", "templates", "feat.txt"])
    );
}
