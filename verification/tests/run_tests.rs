use rustbot::ansi::{ansi, BgColors, Style, TextColors};
use rustbot::run::{
    api_error_reply, api_url, check_len, execute_url, file_from_flag, missing_language,
    parse_args, plan_run, run_reply, ExecData, ExecResult, File, ParsedArgs, RawExecResponse,
    RunPlan,
};
use rustbot::text::chars_of;

fn args(text: &str) -> ParsedArgs {
    parse_args(text.to_string()).expect("flags are readable")
}

#[test]
fn parse_empty_gives_defaults() {
    let p = args("");
    assert_eq!(p.version, "*");
    assert!(p.language.is_none());
    assert!(p.files.is_empty());
    assert_eq!(p.stdin, "");
    assert!(p.args.is_empty());
}

#[test]
fn parse_plain_text_keeps_defaults() {
    let p = args("hello world");
    assert_eq!(p.version, "*");
    assert!(p.language.is_none());
    assert!(p.args.is_empty());
}

#[test]
fn parse_version_language_stdin() {
    let p = args("--version=1.68 --language = rust --stdin= some input ");
    assert_eq!(p.version, "1.68");
    assert_eq!(p.language.as_deref(), Some("rust"));
    assert_eq!(p.stdin, "some input");
}

#[test]
fn parse_args_split_at_commas() {
    let p = args("--args=a, b ,c");
    assert_eq!(p.args, vec!["a", "b", "c"]);
}

#[test]
fn parse_flag_without_value() {
    let p = args("--version");
    assert_eq!(p.version, "*");
}

#[test]
fn parse_last_version_wins() {
    let p = args("--version=1 --version=2");
    assert_eq!(p.version, "2");
}

#[test]
fn parse_debug_is_ignored() {
    let p = args("--debug --stdin=x");
    assert_eq!(p.stdin, "x");
}

#[test]
fn parse_file_flag() {
    let p = args("--file-main.rs ```rust\nfn main() {}\n```");
    assert_eq!(p.files.len(), 1);
    assert_eq!(p.files[0].name, "main.rs");
    assert_eq!(p.files[0].content, "\nfn main() {}\n");
    assert_eq!(p.files[0].encoding, "utf8");
}

#[test]
fn parse_file_without_code_block() {
    assert!(parse_args("--file-main.rs no code here".to_string()).is_none());
}

#[test]
fn setters_update_fields() {
    let mut p = args("");
    p.set_version("3".to_string());
    p.set_language("py".to_string());
    p.set_stdin("in".to_string());
    p.add_arg("x".to_string());
    p.add_file(File::default());
    assert_eq!(p.version, "3");
    assert_eq!(p.language.as_deref(), Some("py"));
    assert_eq!(p.stdin, "in");
    assert_eq!(p.args, vec!["x"]);
    assert_eq!(p.files[0].name, "never.gonna.give.you.up");
}

#[test]
fn defaults() {
    let f = File::default();
    assert_eq!(f.content, "");
    assert_eq!(f.encoding, "utf8");
    let d = ExecData::default();
    assert_eq!(d.version, "*");
    assert_eq!(d.compile_timeout, 10000);
    assert_eq!(d.run_timeout, 3000);
    assert_eq!(d.compile_memory_limit, -1);
    assert_eq!(d.run_memory_limit, -1);
}

#[test]
fn check_len_limits() {
    assert!(check_len(&"a".repeat(1120)));
    assert!(!check_len(&"a".repeat(1121)));
    assert!(!check_len(&"é".repeat(561)));
    assert!(check_len(&"x\n".repeat(20)));
    assert!(!check_len(&"x\n".repeat(21)));
    assert!(check_len(&String::new()));
}

#[test]
fn plan_without_language() {
    assert!(matches!(
        plan_run(None, "code".to_string(), None),
        Some(RunPlan::MissingLanguage)
    ));
}

#[test]
fn plan_with_flags() {
    match plan_run(
        Some("rust".to_string()),
        "fn main(){}".to_string(),
        Some("--language=c --args=1,2".to_string()),
    ) {
        Some(RunPlan::Execute(d)) => {
            assert_eq!(d.language, "c");
            assert_eq!(d.version, "*");
            assert_eq!(d.files.len(), 1);
            assert_eq!(d.files[0].name, "never.gonna.give.you.up");
            assert_eq!(d.files[0].content, "fn main(){}");
            assert_eq!(d.args, vec!["1", "2"]);
            assert_eq!(d.run_timeout, 3000);
        }
        _ => panic!("expected a request"),
    }
}

#[test]
fn plan_block_language_when_no_flag() {
    match plan_run(Some("py".to_string()), "print(1)".to_string(), None) {
        Some(RunPlan::Execute(d)) => assert_eq!(d.language, "py"),
        _ => panic!("expected a request"),
    }
}

fn response(output: &str, code: Option<isize>) -> RawExecResponse {
    RawExecResponse {
        language: "rust".to_string(),
        version: "1.68.2".to_string(),
        run: ExecResult {
            stdout: output.to_string(),
            stderr: String::new(),
            output: output.to_string(),
            code,
            signal: None,
        },
        compile: None,
    }
}

#[test]
fn reply_no_output() {
    let r = run_reply(&response("  \n", Some(0)));
    let e = r.embed.expect("embed");
    assert_eq!(e.title.as_deref(), Some("**rust**"));
    assert_eq!(
        e.description.unwrap(),
        format!("```ansi\n{}no output\n```", ansi(TextColors::Pink, BgColors::Unset, Style::Bold))
    );
    assert!(r.button.is_none());
}

#[test]
fn reply_success_and_error() {
    let ok = run_reply(&response("hi", Some(0)));
    assert_eq!(ok.embed.as_ref().unwrap().description.as_deref(), Some("```rust\nhi\n```"));
    let b = ok.button.unwrap();
    assert_eq!(b.label, "code run");
    assert_eq!(b.custom_id, "run.status");
    assert!(b.success);
    let err = run_reply(&response("boom", Some(1)));
    let b = err.button.unwrap();
    assert_eq!(b.label, "code errored");
    assert!(!b.success);
    let none = run_reply(&response("boom", None));
    assert!(!none.button.unwrap().success);
}

#[test]
fn reply_too_long() {
    let r = run_reply(&response(&"line\n".repeat(30), Some(0)));
    assert_eq!(r.content.as_deref(), Some("**output too long**"));
    assert!(r.embed.is_none());
}

#[test]
fn reply_missing_language() {
    let r = missing_language();
    assert_eq!(
        r.embed.unwrap().description.unwrap(),
        "```ansi\n\x1b[0m\x1b[1;31mplease specify a language\n```"
    );
}

#[test]
fn reply_api_error() {
    let r = api_error_reply(&"Executor".to_string());
    assert!(r.ephemeral);
    assert_eq!(r.embed.unwrap().description.as_deref(), Some("```rs\nExecutor\n```"));
}

#[test]
fn file_from_groups() {
    let part = chars_of("file-lib.rs ```rs\nx\n```");
    let f = file_from_flag(
        &part,
        Some(vec![Some("rs".to_string()), Some("rs".to_string()), Some("\nx\n".to_string())]),
    )
    .unwrap();
    assert_eq!(f.name, "lib.rs");
    assert_eq!(f.content, "\nx\n");
    assert!(file_from_flag(&part, None).is_none());
    assert!(file_from_flag(&part, Some(vec![None, None, None])).is_none());
    assert!(file_from_flag(&part, Some(vec![Some("x".to_string())])).is_none());
}

#[test]
fn service_address() {
    assert_eq!(execute_url(&api_url()), "https://emkc.org/api/v2/piston/execute");
}
