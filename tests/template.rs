use git_helper::config::{load_config, Config};
use git_helper::error::HelperError;
use git_helper::template::{
    default_template, fill_template, load_template, render_commit_message, TemplateContext,
};

fn context(message: &str, branch: &str, date: &str, commit_type: &str) -> TemplateContext {
    TemplateContext {
        message: message.to_string(),
        branch: branch.to_string(),
        date: date.to_string(),
        commit_type: commit_type.to_string(),
    }
}

fn config_with(entries: &[(&str, &str)]) -> Config {
    Config {
        default_branch: "main".to_string(),
        commit_types: entries.iter().map(|(k, v)| (k.to_string(), v.to_string())).collect(),
        user: None,
    }
}

#[test]
fn fill_without_placeholders_keeps_text() {
    let ctx = context("m", "b", "d", "t");
    for t in ["", "plain text", "{unknown} {messag} {Message}", "{{}}", "ünïcödé {"] {
        assert_eq!(fill_template(t, &ctx), t);
    }
}

#[test]
fn fill_replaces_every_placeholder() {
    let ctx = context("add login", "develop", "2024-01-02 03:04:05", "feat");
    assert_eq!(
        fill_template("{type}: {message} on {branch} at {date}", &ctx),
        "feat: add login on develop at 2024-01-02 03:04:05"
    );
}

#[test]
fn fill_replaces_repeated_placeholders() {
    let ctx = context("x", "y", "z", "w");
    assert_eq!(fill_template("{message}{message}-{branch}-{message}", &ctx), "xx-y-x");
}

#[test]
fn fill_does_not_expand_substituted_values() {
    let ctx = context("{branch}", "dev", "now", "{type}");
    assert_eq!(fill_template("{message} {type} {branch}", &ctx), "{branch} {type} dev");
}

#[test]
fn fill_handles_braces_around_placeholders() {
    let ctx = context("M", "B", "D", "T");
    assert_eq!(fill_template("{{message}}", &ctx), "{M}");
    assert_eq!(fill_template("{mess{date}", &ctx), "{messD");
}

#[test]
fn default_template_embeds_tag() {
    assert_eq!(default_template("wip"), "wip: {message}\n\nbranch: {branch}\ndate: {date}");
}

#[test]
fn project_template_wins_over_everything() {
    let cfg = config_with(&[("fix", "CONFIG {message}")]);
    let r = load_template(
        "fix",
        Some(Ok("FIX({type}): {message}".to_string())),
        Some(Ok("GLOBAL".to_string())),
        Ok(cfg),
    );
    assert_eq!(r, Ok("FIX({type}): {message}".to_string()));
}

#[test]
fn global_template_wins_over_config() {
    let cfg = config_with(&[("fix", "CONFIG {message}")]);
    let r = load_template("fix", None, Some(Ok("GLOBAL".to_string())), Ok(cfg));
    assert_eq!(r, Ok("GLOBAL".to_string()));
}

#[test]
fn config_template_used_without_files() {
    let cfg = config_with(&[("docs", "D"), ("fix", "CONFIG {message}")]);
    let r = load_template("fix", None, None, Ok(cfg));
    assert_eq!(r, Ok("CONFIG {message}".to_string()));
}

#[test]
fn default_template_used_last() {
    let cfg = config_with(&[("docs", "D")]);
    let r = load_template("perf", None, None, Ok(cfg));
    assert_eq!(r, Ok("perf: {message}\n\nbranch: {branch}\ndate: {date}".to_string()));
}

#[test]
fn unreadable_project_template_is_an_error() {
    let e = HelperError::Io("Failed to read project template: denied".to_string());
    let r = load_template("fix", Some(Err(e.clone())), Some(Ok("G".to_string())), Ok(Config::default()));
    assert_eq!(r, Err(e));
}

#[test]
fn config_error_only_matters_without_template_files() {
    let e = HelperError::Config("Failed to parse config file: bad".to_string());
    assert_eq!(load_template("fix", None, None, Err(e.clone())), Err(e.clone()));
    assert_eq!(
        load_template("fix", None, Some(Ok("G".to_string())), Err(e)),
        Ok("G".to_string())
    );
}

#[test]
fn render_feat_with_default_config() {
    let cfg = load_config(None, None);
    let r = render_commit_message("feat", "add login", "develop", None, None, cfg).unwrap();
    let prefix = "feat: add login\n\nbranch: develop\ndate: ";
    assert!(r.starts_with(prefix), "{}", r);
    assert_eq!(r.chars().count(), prefix.chars().count() + 19);
}

#[test]
fn render_feat_with_fixed_date() {
    let cfg = load_config(None, None).unwrap();
    let t = load_template("feat", None, None, Ok(cfg)).unwrap();
    let ctx = context("add login", "develop", "2024-05-06 07:08:09", "feat");
    assert_eq!(
        fill_template(&t, &ctx),
        "feat: add login\n\nbranch: develop\ndate: 2024-05-06 07:08:09"
    );
}

#[test]
fn render_fix_with_project_template() {
    let cfg = config_with(&[("fix", "CONFIG {message}")]);
    let r = render_commit_message(
        "fix",
        "null check",
        "main",
        Some(Ok("FIX({type}): {message}".to_string())),
        Some(Ok("GLOBAL {message}".to_string())),
        Ok(cfg),
    );
    assert_eq!(r, Ok("FIX(fix): null check".to_string()));
}

#[test]
fn render_reports_resolution_error() {
    let e = HelperError::Io("Failed to read global template: gone".to_string());
    let r = render_commit_message("fix", "m", "b", None, Some(Err(e.clone())), Ok(Config::default()));
    assert_eq!(r, Err(e));
}

#[test]
fn context_new_keeps_values() {
    let ctx = TemplateContext::new("msg", "br", "chore");
    assert_eq!(ctx.message, "msg");
    assert_eq!(ctx.branch, "br");
    assert_eq!(ctx.commit_type, "chore");
    assert_eq!(ctx.date.len(), 19);
}
