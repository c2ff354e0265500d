use easel::smoke::{default_smoke_views, parse_smoke_args, parse_smoke_outdir, parse_smoke_views, smoke_view_order};

fn args(parts: &[&str]) -> Vec<String> {
    std::iter::once("easel-desktop")
        .chain(parts.iter().copied())
        .map(str::to_string)
        .collect()
}

#[test]
fn parse_smoke_views_defaults_and_all() {
    assert_eq!(parse_smoke_views("").unwrap(), default_smoke_views());
    assert_eq!(default_smoke_views(), vec!["preview".to_string(), "compose".to_string()]);
    assert_eq!(parse_smoke_views("all").unwrap(), smoke_view_order());
    assert_eq!(
        smoke_view_order(),
        vec![
            "preview".to_string(),
            "compose".to_string(),
            "discover".to_string(),
            "library".to_string(),
            "profiles".to_string(),
            "automation".to_string()
        ]
    );
}

#[test]
fn parse_smoke_views_orders_and_dedupes() {
    assert_eq!(
        parse_smoke_views("automation,preview,automation,compose").unwrap(),
        vec!["preview".to_string(), "compose".to_string(), "automation".to_string()]
    );
}

#[test]
fn parse_smoke_views_rejects_unknown() {
    assert!(parse_smoke_views("preview,nope").is_err());
}

#[test]
fn smoke_views_defaults_when_omitted() {
    let config = parse_smoke_args(&args(&["--smoke-screenshot", "/tmp/out"]))
        .unwrap()
        .expect("smoke config");
    assert_eq!(config.views, vec!["preview".to_string(), "compose".to_string()]);
}

#[test]
fn smoke_views_missing_value_errors() {
    assert!(parse_smoke_args(&args(&["--smoke-screenshot", "/tmp/out", "--smoke-views"])).is_err());
    assert!(parse_smoke_args(&args(&[
        "--smoke-screenshot",
        "/tmp/out",
        "--smoke-views",
        "--smoke-screenshot=/tmp/other"
    ]))
    .is_err());
    assert!(parse_smoke_args(&args(&["--smoke-screenshot=/tmp/out", "--smoke-views="])).is_err());
}

#[test]
fn smoke_views_accepts_explicit_list() {
    let config = parse_smoke_args(&args(&["--smoke-screenshot=/tmp/out", "--smoke-views=preview,discover"]))
        .unwrap()
        .expect("smoke config");
    assert_eq!(config.views, vec!["preview".to_string(), "discover".to_string()]);
}

#[test]
fn smoke_views_unknown_view_message() {
    assert_eq!(
        parse_smoke_views("preview,Nope").unwrap_err(),
        "unknown smoke view 'nope' (expected one of: preview, compose, discover, library, profiles, automation, or all)"
    );
}

#[test]
fn smoke_views_tokens_are_trimmed_and_lowercased() {
    assert_eq!(
        parse_smoke_views("  Library;PREVIEW  discover ").unwrap(),
        vec!["preview".to_string(), "discover".to_string(), "library".to_string()]
    );
    assert_eq!(parse_smoke_views(" , ; ").unwrap(), default_smoke_views());
}

#[test]
fn smoke_args_without_screenshot_give_no_config() {
    assert_eq!(parse_smoke_args(&args(&["--smoke-views=all"])).unwrap(), None);
    let config = parse_smoke_args(&args(&["--smoke-screenshot=/tmp/out"])).unwrap().unwrap();
    assert_eq!(config.out_dir, "/tmp/out");
}

#[test]
fn smoke_args_value_before_flag_message() {
    assert_eq!(
        parse_smoke_args(&args(&["--smoke-screenshot", "/tmp/out", "--smoke-views", "-x"])).unwrap_err(),
        "invalid --smoke-views: missing value before '-x'"
    );
    assert_eq!(
        parse_smoke_args(&args(&["--smoke-screenshot", "/tmp/out", "--smoke-views=bogus"])).unwrap_err(),
        "invalid --smoke-views: unknown smoke view 'bogus' (expected one of: preview, compose, discover, library, profiles, automation, or all)"
    );
}

#[test]
fn smoke_outdir_reads_both_forms() {
    assert_eq!(parse_smoke_outdir(&args(&["--smoke-screenshot", "/tmp/a"])), Some("/tmp/a".to_string()));
    assert_eq!(parse_smoke_outdir(&args(&["x", "--smoke-screenshot=/tmp/b"])), Some("/tmp/b".to_string()));
    assert_eq!(parse_smoke_outdir(&args(&["--smoke-screenshot"])), None);
    assert_eq!(parse_smoke_outdir(&args(&[])), None);
}

#[test]
fn unknown_smoke_view_is_refused_wherever_it_stands() {
    assert_eq!(
        parse_smoke_views("all,nope"),
        Err("unknown smoke view 'nope' (expected one of: preview, compose, discover, library, profiles, automation, or all)"
            .to_string())
    );
    assert!(parse_smoke_views("nope,all").is_err());
    assert_eq!(parse_smoke_views("compose ALL").unwrap().len(), 6);
}

#[test]
fn smoke_views_ignore_order_repetition_and_case() {
    let expected = vec!["preview".to_string(), "library".to_string()];
    assert_eq!(parse_smoke_views("library,preview").unwrap(), expected);
    assert_eq!(parse_smoke_views(" PREVIEW ; library library ").unwrap(), expected);
}
