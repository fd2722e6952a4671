use git_helper::config::{config_from_fields, load_config, same_text, Config, UserConfig};
use git_helper::error::HelperError;

fn tags() -> Vec<&'static str> {
    vec!["feat", "fix", "docs", "style", "refactor", "test", "chore"]
}

#[test]
fn builtin_default_config() {
    let c = Config::default();
    assert_eq!(c.default_branch, "main");
    assert!(c.user.is_none());
    assert_eq!(c.commit_types.len(), 7);
    for (i, tag) in tags().iter().enumerate() {
        assert_eq!(c.commit_types[i].0, *tag);
        let expected = format!("{}: {{message}}\n\nbranch: {{branch}}\ndate: {{date}}", tag);
        assert_eq!(c.get_commit_template(tag), Some(&expected));
    }
}

#[test]
fn load_config_without_files_is_builtin() {
    let c = load_config(None, None).unwrap();
    assert_eq!(c.default_branch, "main");
    assert_eq!(c.commit_types.len(), 7);
    assert!(c.get_commit_template("refactor").is_some());
}

#[test]
fn load_config_prefers_project() {
    let project = config_from_fields(Some("trunk".to_string()), None, None);
    let global = config_from_fields(Some("develop".to_string()), None, None);
    let c = load_config(Some(Ok(project)), Some(Ok(global))).unwrap();
    assert_eq!(c.default_branch, "trunk");
}

#[test]
fn load_config_uses_global_without_project() {
    let global = config_from_fields(Some("develop".to_string()), None, None);
    let c = load_config(None, Some(Ok(global))).unwrap();
    assert_eq!(c.default_branch, "develop");
}

#[test]
fn load_config_fails_fast_on_bad_project_file() {
    let e = HelperError::Config("Failed to parse config file: x".to_string());
    let global = config_from_fields(None, None, None);
    let r = load_config(Some(Err(e.clone())), Some(Ok(global)));
    assert_eq!(r.unwrap_err(), e);
}

#[test]
fn missing_fields_take_per_field_defaults() {
    let c = config_from_fields(None, None, None);
    assert_eq!(c.default_branch, "main");
    assert!(c.commit_types.is_empty());
    assert!(c.get_commit_template("feat").is_none());
    let user = UserConfig { name: Some("ann".to_string()), email: None };
    let c = config_from_fields(
        Some("dev".to_string()),
        Some(vec![("feat".to_string(), "F {message}".to_string())]),
        Some(user),
    );
    assert_eq!(c.default_branch, "dev");
    assert_eq!(c.get_commit_template("feat"), Some(&"F {message}".to_string()));
    assert_eq!(c.user.unwrap().name.as_deref(), Some("ann"));
}

#[test]
fn get_commit_template_unknown_tag() {
    assert!(Config::default().get_commit_template("perf").is_none());
    assert!(Config::default().get_commit_template("").is_none());
    assert!(Config::default().get_commit_template("Feat").is_none());
}

#[test]
fn same_text_compares_characters() {
    assert!(same_text("", ""));
    assert!(same_text("héllo", "héllo"));
    assert!(!same_text("hello", "hellO"));
    assert!(!same_text("abc", "abcd"));
}

#[test]
fn error_messages() {
    assert_eq!(HelperError::NotARepository.message(), "Not inside a git repository");
    assert!(HelperError::NothingStaged.message().starts_with("Nothing to commit. No staged changes found."));
    assert!(HelperError::NothingChanged.message().contains("no changes compared to the last commit"));
    assert_eq!(HelperError::Config("bad".to_string()).message(), "bad");
    assert_eq!(HelperError::MissingReference("gone".to_string()).message(), "gone");
    assert_eq!(HelperError::Io("unreadable".to_string()).message(), "unreadable");
    assert_eq!(HelperError::Git("boom".to_string()).message(), "boom");
}
