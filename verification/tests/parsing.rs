use vssh::parser::parse_command;
use vssh::pipeline::ShellError;

#[test]
fn three_stage_pipeline_order() {
    let p = parse_command("a | b | c").unwrap();
    assert_eq!(p.stages.len(), 3);
    assert_eq!(p.stages[0].program, "a");
    assert_eq!(p.stages[1].program, "b");
    assert_eq!(p.stages[2].program, "c");
    assert!(p.stages.iter().all(|s| s.args.is_empty()));
    assert!(p.input_redirect.is_none());
    assert!(p.output_redirect.is_none());
    assert!(!p.background);
}

#[test]
fn pipe_with_output_redirect() {
    let p = parse_command("ls -la | grep foo > out.txt").unwrap();
    assert_eq!(p.stages.len(), 2);
    assert_eq!(p.stages[0].program, "ls");
    assert_eq!(p.stages[0].args, vec!["-la".to_string()]);
    assert_eq!(p.stages[1].program, "grep");
    assert_eq!(p.stages[1].args, vec!["foo".to_string()]);
    assert!(p.input_redirect.is_none());
    assert_eq!(p.output_redirect.as_deref(), Some("out.txt"));
    assert!(!p.background);
}

#[test]
fn single_stage_both_redirects() {
    let p = parse_command("sort < in.txt > out.txt").unwrap();
    assert_eq!(p.stages.len(), 1);
    assert_eq!(p.stages[0].program, "sort");
    assert!(p.stages[0].args.is_empty());
    assert_eq!(p.input_redirect.as_deref(), Some("in.txt"));
    assert_eq!(p.output_redirect.as_deref(), Some("out.txt"));
}

#[test]
fn trailing_background_marker_is_stripped() {
    let p = parse_command("sleep 100 &").unwrap();
    assert!(p.background);
    assert_eq!(p.stages.len(), 1);
    assert_eq!(p.stages[0].program, "sleep");
    assert_eq!(p.stages[0].args, vec!["100".to_string()]);
    assert!(!p.stages[0].program.contains('&'));
    assert!(p.stages[0].args.iter().all(|a| !a.contains('&')));
}

#[test]
fn background_marker_without_space() {
    let p = parse_command("ls&").unwrap();
    assert!(p.background);
    assert_eq!(p.stages.len(), 1);
    assert_eq!(p.stages[0].program, "ls");
    assert!(p.stages[0].args.is_empty());
}

#[test]
fn repeated_background_marker() {
    let p = parse_command("ls &&").unwrap();
    assert!(p.background);
    assert_eq!(p.stages[0].program, "ls");
    assert!(p.stages[0].args.is_empty());
}

#[test]
fn background_pipeline_keeps_stages() {
    let p = parse_command("cat f | wc -l &").unwrap();
    assert!(p.background);
    assert_eq!(p.stages.len(), 2);
    assert_eq!(p.stages[1].program, "wc");
    assert_eq!(p.stages[1].args, vec!["-l".to_string()]);
}

#[test]
fn input_redirect_on_first_stage_of_pipeline() {
    let p = parse_command("grep x < in.txt | sort").unwrap();
    assert_eq!(p.stages.len(), 2);
    assert_eq!(p.stages[0].program, "grep");
    assert_eq!(p.stages[0].args, vec!["x".to_string()]);
    assert_eq!(p.stages[1].program, "sort");
    assert_eq!(p.input_redirect.as_deref(), Some("in.txt"));
    assert!(p.output_redirect.is_none());
}

#[test]
fn empty_stage_is_parse_error() {
    assert_eq!(parse_command("a | | b").unwrap_err(), ShellError::ParseError);
}

#[test]
fn lone_marker_is_parse_error() {
    assert_eq!(parse_command("&").unwrap_err(), ShellError::ParseError);
}

#[test]
fn empty_redirect_path_is_parse_error() {
    assert_eq!(parse_command("a <  > x").unwrap_err(), ShellError::ParseError);
}

#[test]
fn unspaced_angle_is_an_ordinary_token() {
    let p = parse_command("ls >out").unwrap();
    assert_eq!(p.stages.len(), 1);
    assert_eq!(p.stages[0].program, "ls");
    assert_eq!(p.stages[0].args, vec![">out".to_string()]);
    assert!(p.output_redirect.is_none());
}

#[test]
fn extra_whitespace_between_tokens() {
    let p = parse_command("  echo   a  b  ").unwrap();
    assert_eq!(p.stages.len(), 1);
    assert_eq!(p.stages[0].program, "echo");
    assert_eq!(p.stages[0].args, vec!["a".to_string(), "b".to_string()]);
}

#[test]
fn error_messages() {
    assert_eq!(ShellError::ParseError.describe(), "malformed pipeline");
    assert_eq!(ShellError::FileNotFound.describe(), "input file not found");
    assert_eq!(ShellError::IoError.describe(), "failed to create output file");
    assert_eq!(ShellError::SpawnError.describe(), "failed to execute command");
    assert_eq!(ShellError::WaitError.describe(), "error waiting for child process");
}
