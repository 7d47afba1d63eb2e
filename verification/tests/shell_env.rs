use trunk::shell_env::{parse_marked_path, parse_path_helper_output, path_begin_marker, path_end_marker};

fn marked(inner: &str) -> String {
    format!("{}{}{}", path_begin_marker(), inner, path_end_marker())
}

#[test]
fn extracts_path_between_markers() {
    let input = marked("/opt/homebrew/bin:/usr/bin");
    assert_eq!(parse_marked_path(&input).as_deref(), Some("/opt/homebrew/bin:/usr/bin"));
}

#[test]
fn ignores_rc_banner_around_markers() {
    let input = format!("Welcome to your shell!\n{}\n", marked("/run/current-system/sw/bin"));
    assert_eq!(parse_marked_path(&input).as_deref(), Some("/run/current-system/sw/bin"));
}

#[test]
fn returns_none_when_end_marker_missing() {
    let input = format!("{}/usr/bin", path_begin_marker());
    assert!(parse_marked_path(&input).is_none());
}

#[test]
fn returns_none_when_begin_marker_missing() {
    let input = format!("/usr/bin{}", path_end_marker());
    assert!(parse_marked_path(&input).is_none());
}

#[test]
fn returns_none_on_empty_path() {
    let input = marked("");
    assert!(parse_marked_path(&input).is_none());
}

#[test]
fn parses_sh_format() {
    let input = r#"PATH="/usr/bin:/opt/homebrew/bin:/usr/sbin"; export PATH;"#;
    assert_eq!(
        parse_path_helper_output(input).as_deref(),
        Some("/usr/bin:/opt/homebrew/bin:/usr/sbin")
    );
}

#[test]
fn parses_csh_format() {
    let input = r#"setenv PATH "/usr/bin:/bin";"#;
    assert_eq!(parse_path_helper_output(input).as_deref(), Some("/usr/bin:/bin"));
}

#[test]
fn returns_none_on_empty() {
    assert!(parse_path_helper_output("").is_none());
}

#[test]
fn returns_none_on_no_quotes() {
    assert!(parse_path_helper_output("PATH=/usr/bin").is_none());
}

#[test]
fn returns_none_on_single_quote() {
    assert!(parse_path_helper_output(r#"PATH="/usr/bin"#).is_none());
}

#[test]
fn markers_are_the_documented_strings() {
    assert_eq!(path_begin_marker(), "__TRUNK_PATH_BEGIN__");
    assert_eq!(path_end_marker(), "__TRUNK_PATH_END__");
}

#[test]
fn first_marker_pair_wins_and_unicode_is_kept() {
    let input = format!("{}{}", marked("/ünï/bin"), marked("/other"));
    assert_eq!(parse_marked_path(&input).as_deref(), Some("/ünï/bin"));
}

#[test]
fn empty_quotes_give_an_empty_path() {
    assert_eq!(parse_path_helper_output(r#"PATH=""; export PATH;"#).as_deref(), Some(""));
}
