use dec::args::{default_output, parse_args, parse_args_with, Op};

fn words(v: &[&str]) -> Vec<String> {
    v.iter().map(|s| s.to_string()).collect()
}

#[test]
fn test_parse_args_encrypt_basic() {
    let args = words(&["-e", "test_input.txt"]);
    let result = parse_args_with(&args, true);
    assert!(result.is_ok());
    let parsed_args = result.unwrap();
    assert_eq!(parsed_args.op, Op::Enc);
    assert_eq!(parsed_args.output_path, format!("{}.decx", "test_input.txt"));
    assert_eq!(parsed_args.quiet, false);
}

#[test]
fn test_parse_args_decrypt_with_options() {
    let args = words(&[
        "-d",
        "test_input.decx",
        "-o",
        "custom_output.txt",
        "-p",
        "testpassword",
        "-q",
    ]);
    let result = parse_args_with(&args, true);
    assert!(result.is_ok());
    let parsed_args = result.unwrap();
    assert_eq!(parsed_args.op, Op::Dec);
    assert_eq!(parsed_args.output_path, "custom_output.txt");
    assert_eq!(parsed_args.password, Some("testpassword".to_string()));
    assert_eq!(parsed_args.quiet, true);
}

#[test]
fn test_parse_args_invalid_operation() {
    let args = vec!["-x".to_string(), "input.txt".to_string()];
    let result = parse_args(&args);
    assert!(result.is_err());
    assert_eq!(result.unwrap_err(), "unknown operation");
}

#[test]
fn test_parse_args_missing_arguments() {
    let args = vec!["-e".to_string()];
    let result = parse_args(&args);
    assert!(result.is_err());
    assert_eq!(result.unwrap_err(), "arg too short");
}

#[test]
fn test_parse_args_file_not_found() {
    let args = vec!["-e".to_string(), "nonexistent.txt".to_string()];
    let result = parse_args(&args);
    assert!(result.is_err());
    assert_eq!(result.unwrap_err(), "no such file");
}

#[test]
fn parse_args_checks_an_existing_file() {
    let args = words(&["--encrypt", "/", "--quiet"]);
    let parsed = parse_args(&args).unwrap();
    assert_eq!(parsed.op, Op::Enc);
    assert_eq!(parsed.input_path, "/");
    assert_eq!(parsed.output_path, "/.decx");
    assert!(parsed.quiet);
    assert_eq!(parsed.password, None);
}

#[test]
fn parse_args_decrypt_defaults() {
    let parsed = parse_args_with(&words(&["-d", "photo.jpg.decx"]), true).unwrap();
    assert_eq!(parsed.output_path, "photo.jpg");
    let parsed = parse_args_with(&words(&["--decrypt", "archive.bin"]), true).unwrap();
    assert_eq!(parsed.output_path, "archive.bin.out");
    let parsed = parse_args_with(&words(&["-d", ".decx"]), true).unwrap();
    assert_eq!(parsed.output_path, "");
}

#[test]
fn parse_args_option_errors() {
    let e = parse_args_with(&words(&["-e", "f", "-p", "a", "--password", "b"]), true);
    assert_eq!(e.unwrap_err(), "one password option only");
    let e = parse_args_with(&words(&["-e", "f", "-o", "a", "--output", "b"]), true);
    assert_eq!(e.unwrap_err(), "one output option only");
    let e = parse_args_with(&words(&["-e", "f", "-z"]), true);
    assert_eq!(e.unwrap_err(), "unknown option");
    let e = parse_args_with(&words(&["-e", "f", "-p"]), true);
    assert_eq!(e.unwrap_err(), "missing option value");
    let e = parse_args_with(&words(&["-e", "f", "-o"]), true);
    assert_eq!(e.unwrap_err(), "missing option value");
    let e = parse_args_with(&words(&["-e", "f", "-z"]), false);
    assert_eq!(e.unwrap_err(), "no such file");
}

#[test]
fn parse_args_option_value_may_look_like_a_flag() {
    let parsed = parse_args_with(&words(&["-e", "f", "-p", "-q"]), true).unwrap();
    assert_eq!(parsed.password, Some("-q".to_string()));
    assert!(!parsed.quiet);
}

#[test]
fn default_output_paths() {
    assert_eq!(default_output(Op::Enc, &"a.txt".to_string()), "a.txt.decx");
    assert_eq!(default_output(Op::Dec, &"a.txt.decx".to_string()), "a.txt");
    assert_eq!(default_output(Op::Dec, &"a.txt".to_string()), "a.txt.out");
    assert_eq!(default_output(Op::Dec, &"ab".to_string()), "ab.out");
}
