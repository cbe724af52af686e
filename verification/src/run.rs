//! The `run` command: reading its flags, building the request for the code
//! execution service, and choosing the reply to the service's answer.
use vstd::prelude::*;

use crate::ansi::{ansi, ansi_seq, BgColors, Style, TextColors};
use crate::pattern::{capture_groups, codeblock_pattern, flag_split, regex_groups, split_flags};
use crate::embed::{
    embed_reply, empty_embed, text_reply, Button, ButtonView, Embed, EmbedView, Reply, ReplyView,
};
use crate::text::{
    chars_of, eq_str, has_prefix, lemma_char_vec_deep_view, lemma_split_char_len, lines, lines_of,
    split_char, split_on_char, starts_with, string_of, trim, trim_chars, utf8_len_exceeds,
};

verus! {

// ---------------------------------------------------------------------------
// Data sent to and received from the execution service
// ---------------------------------------------------------------------------

/// A source file handed to the execution service.
#[derive(Debug)]
pub struct File {
    pub name: String,
    pub content: String,
    pub encoding: String,
}

pub struct FileView {
    pub name: Seq<char>,
    pub content: Seq<char>,
    pub encoding: Seq<char>,
}

impl DeepView for File {
    type V = FileView;

    open spec fn deep_view(&self) -> FileView {
        FileView { name: self.name@, content: self.content@, encoding: self.encoding@ }
    }
}

impl View for File {
    type V = FileView;

    open spec fn view(&self) -> FileView {
        self.deep_view()
    }
}

/// The name given to a file that the user did not name.
pub open spec fn default_file_name() -> Seq<char> {
    "never.gonna.give.you.up"@
}

impl Default for File {
    fn default() -> (f: Self)
        ensures
            f@ == (FileView {
                name: default_file_name(),
                content: Seq::empty(),
                encoding: "utf8"@,
            }),
    {
        File {
            name: String::from_str("never.gonna.give.you.up"),
            content: String::new(),
            encoding: String::from_str("utf8"),
        }
    }
}

/// The outcome of one stage (compile or run) of an execution.
#[derive(Debug)]
pub struct ExecResult {
    pub stdout: String,
    pub stderr: String,
    pub output: String,
    pub code: Option<isize>,
    pub signal: Option<String>,
}

/// The request body of an execution.
#[derive(Debug)]
pub struct ExecData {
    pub language: String,
    pub version: String,
    pub files: Vec<File>,
    pub stdin: String,
    pub args: Vec<String>,
    pub compile_timeout: isize,
    pub run_timeout: isize,
    pub compile_memory_limit: isize,
    pub run_memory_limit: isize,
}

pub struct ExecDataView {
    pub language: Seq<char>,
    pub version: Seq<char>,
    pub files: Seq<FileView>,
    pub stdin: Seq<char>,
    pub args: Seq<Seq<char>>,
    pub compile_timeout: isize,
    pub run_timeout: isize,
    pub compile_memory_limit: isize,
    pub run_memory_limit: isize,
}

impl View for ExecData {
    type V = ExecDataView;

    open spec fn view(&self) -> ExecDataView {
        ExecDataView {
            language: self.language@,
            version: self.version@,
            files: self.files.deep_view(),
            stdin: self.stdin@,
            args: self.args.deep_view(),
            compile_timeout: self.compile_timeout,
            run_timeout: self.run_timeout,
            compile_memory_limit: self.compile_memory_limit,
            run_memory_limit: self.run_memory_limit,
        }
    }
}

/// The request of the defaults: any version, no files, no input, ten
/// seconds to compile, three to run, no memory limits.
pub open spec fn default_exec_data() -> ExecDataView {
    ExecDataView {
        language: Seq::empty(),
        version: "*"@,
        files: Seq::empty(),
        stdin: Seq::empty(),
        args: Seq::empty(),
        compile_timeout: 10000,
        run_timeout: 3000,
        compile_memory_limit: -1isize,
        run_memory_limit: -1isize,
    }
}

impl Default for ExecData {
    fn default() -> (d: Self)
        ensures
            d@ == default_exec_data(),
    {
        let d = ExecData {
            language: String::new(),
            version: String::from_str("*"),
            files: Vec::new(),
            stdin: String::new(),
            args: Vec::new(),
            compile_timeout: 10000,
            run_timeout: 3000,
            compile_memory_limit: -1,
            run_memory_limit: -1,
        };
        proof {
            assert(d.files.deep_view() =~= Seq::<FileView>::empty());
            assert(d.args.deep_view() =~= Seq::<Seq<char>>::empty());
        }
        d
    }
}

/// The service's answer to an execution.
#[derive(Debug)]
pub struct RawExecResponse {
    pub language: String,
    pub version: String,
    pub run: ExecResult,
    pub compile: Option<ExecResult>,
}

/// The address of the execution service that requests go to by default.
pub open spec fn default_api_url() -> Seq<char> {
    "https://emkc.org/api/v2/piston"@
}

/// The address of the execution service that requests go to by default.
pub fn api_url() -> (r: String)
    ensures
        r@ == default_api_url(),
{
    String::from_str("https://emkc.org/api/v2/piston")
}

/// The endpoint that runs code, under the service address `base`.
pub fn execute_url(base: &String) -> (r: String)
    ensures
        r@ == base@ + "/execute"@,
{
    let mut r = base.clone();
    r.append("/execute");
    r
}

/// Where an execution stands.
#[derive(Debug)]
pub enum ExecutionStatus {
    Running,
    Success,
    Failure,
}

// ---------------------------------------------------------------------------
// Flags of the command
// ---------------------------------------------------------------------------

/// What the flags of a `run` command set.
#[derive(Debug)]
pub struct ParsedArgs {
    pub version: String,
    pub language: Option<String>,
    pub files: Vec<File>,
    pub stdin: String,
    pub args: Vec<String>,
}

pub struct ParsedArgsView {
    pub version: Seq<char>,
    pub language: Option<Seq<char>>,
    pub files: Seq<FileView>,
    pub stdin: Seq<char>,
    pub args: Seq<Seq<char>>,
}

impl View for ParsedArgs {
    type V = ParsedArgsView;

    open spec fn view(&self) -> ParsedArgsView {
        ParsedArgsView {
            version: self.version@,
            language: self.language.deep_view(),
            files: self.files.deep_view(),
            stdin: self.stdin@,
            args: self.args.deep_view(),
        }
    }
}

impl ParsedArgs {
    pub fn set_version(&mut self, version: String)
        ensures
            final(self)@ == (ParsedArgsView { version: version@, ..old(self)@ }),
    {
        self.version = version;
    }

    pub fn set_language(&mut self, language: String)
        ensures
            final(self)@ == (ParsedArgsView { language: Some(language@), ..old(self)@ }),
    {
        self.language = Some(language);
    }

    pub fn add_file(&mut self, files: File)
        ensures
            final(self)@ == (ParsedArgsView { files: old(self)@.files.push(files@), ..old(self)@ }),
    {
        let ghost before = self.files.deep_view();
        let ghost added = files@;
        self.files.push(files);
        proof {
            assert(self.files.deep_view() =~= before.push(added));
        }
    }

    pub fn set_stdin(&mut self, stdin: String)
        ensures
            final(self)@ == (ParsedArgsView { stdin: stdin@, ..old(self)@ }),
    {
        self.stdin = stdin;
    }

    pub fn add_arg(&mut self, args: String)
        ensures
            final(self)@ == (ParsedArgsView { args: old(self)@.args.push(args@), ..old(self)@ }),
    {
        let ghost before = self.args.deep_view();
        let ghost added = args@;
        self.args.push(args);
        proof {
            assert(self.args.deep_view() =~= before.push(added));
        }
    }
}

/// The code of the fenced code block that ends `part` (the third group of
/// the code-block pattern), or `None` where there is none.
pub open spec fn codeblock_code(part: Seq<char>) -> Option<Seq<char>> {
    match regex_groups(codeblock_pattern(), part) {
        Some(g) => if g.len() >= 3 {
            g[2]
        } else {
            None
        },
        None => None,
    }
}

/// The file name in a `file-NAME ...` flag: the text between the first and
/// the second `-`, up to the first space, trimmed.
pub open spec fn file_flag_name(part: Seq<char>) -> Seq<char> {
    trim(split_char(split_char(part, '-')[1], ' ')[0])
}

/// The flags at their defaults: any version, no language, no files, no input,
/// no arguments.
pub open spec fn initial_args() -> ParsedArgsView {
    ParsedArgsView {
        version: "*"@,
        language: None,
        files: Seq::empty(),
        stdin: Seq::empty(),
        args: Seq::empty(),
    }
}

/// Reads the flag pieces in order into `acc`. A `version`, `language`,
/// `stdin` or `args` piece takes the next piece as its value (trimmed; the
/// arguments split at commas); a piece that starts with `file-` adds a file
/// whose content is the code block that ends it; a `debug` piece and any
/// other piece are passed over. `None` where a `file-` piece has no code
/// block.
pub open spec fn parse_pieces(pieces: Seq<Seq<char>>, acc: ParsedArgsView) -> Option<ParsedArgsView>
    decreases pieces.len(),
{
    if pieces.len() == 0 {
        Some(acc)
    } else {
        let part = pieces[0];
        let key = trim(part);
        let rest = pieces.drop_first();
        if key == "version"@ {
            if rest.len() > 0 {
                parse_pieces(rest.drop_first(), ParsedArgsView { version: trim(rest[0]), ..acc })
            } else {
                Some(acc)
            }
        } else if key == "language"@ {
            if rest.len() > 0 {
                parse_pieces(
                    rest.drop_first(),
                    ParsedArgsView { language: Some(trim(rest[0])), ..acc },
                )
            } else {
                Some(acc)
            }
        } else if key == "stdin"@ {
            if rest.len() > 0 {
                parse_pieces(rest.drop_first(), ParsedArgsView { stdin: trim(rest[0]), ..acc })
            } else {
                Some(acc)
            }
        } else if key == "args"@ {
            if rest.len() > 0 {
                parse_pieces(
                    rest.drop_first(),
                    ParsedArgsView {
                        args: acc.args + split_char(rest[0], ',').map_values(
                            |a: Seq<char>| trim(a),
                        ),
                        ..acc
                    },
                )
            } else {
                Some(acc)
            }
        } else if key == "debug"@ {
            parse_pieces(rest, acc)
        } else if has_prefix(part, "file-"@) {
            match codeblock_code(trim(part)) {
                Some(code) => parse_pieces(
                    rest,
                    ParsedArgsView {
                        files: acc.files.push(
                            FileView { name: file_flag_name(part), content: code, encoding: "utf8"@ },
                        ),
                        ..acc
                    },
                ),
                None => None,
            }
        } else {
            parse_pieces(rest, acc)
        }
    }
}

/// The flags of `arg`, or `None` where a `file-` flag carries no code block.
pub open spec fn parse_args_spec(arg: Seq<char>) -> Option<ParsedArgsView> {
    parse_pieces(flag_split(arg), initial_args())
}

/// The file that a `file-` flag `part` adds, given the groups of the
/// code-block pattern in it: its name is taken from the flag, its content is
/// the block's code; `None` where there is no code block.
pub fn file_from_flag(part: &Vec<char>, groups: Option<Vec<Option<String>>>) -> (f: Option<File>)
    requires
        has_prefix(part@, "file-"@),
    ensures
        match groups.deep_view() {
            Some(g) => if g.len() >= 3 && g[2] is Some {
                f matches Some(x) && x@ == (FileView {
                    name: file_flag_name(part@),
                    content: g[2]->0,
                    encoding: "utf8"@,
                })
            } else {
                f is None
            },
            None => f is None,
        },
{
    let code = match groups {
        Some(g) => {
            if g.len() < 3 {
                return None;
            }
            match &g[2] {
                Some(c) => c.clone(),
                None => {
                    return None;
                },
            }
        },
        None => {
            return None;
        },
    };
    let dash_pieces = split_on_char(part, '-');
    proof {
        reveal_strlit("file-");
        assert("file-"@[4] == '-');
        assert(part@.take(5) == "file-"@);
        assert(part@[4] == part@.take(5)[4]);
        assert(part@.contains('-'));
        lemma_split_char_len(part@, '-', Seq::empty());
    }
    let after_dash = &dash_pieces[1];
    let space_pieces = split_on_char(after_dash, ' ');
    proof {
        lemma_split_char_len(after_dash@, ' ', Seq::empty());
        lemma_char_vec_deep_view(*after_dash);
    }
    let name_chars = trim_chars(&space_pieces[0]);
    proof {
        lemma_char_vec_deep_view(space_pieces@[0]);
    }
    Some(File { name: string_of(&name_chars), content: code, encoding: String::from_str("utf8") })
}

/// The arguments of an `args` flag: its value split at commas, each trimmed.
fn split_args(value: &Vec<char>) -> (r: Vec<String>)
    ensures
        r.deep_view() == split_char(value@, ',').map_values(|a: Seq<char>| trim(a)),
{
    let pieces = split_on_char(value, ',');
    let mut out: Vec<String> = Vec::new();
    let mut k: usize = 0;
    while k < pieces.len()
        invariant
            k <= pieces.len(),
            pieces.deep_view() == split_char(value@, ','),
            out.deep_view() == split_char(value@, ',').take(k as int).map_values(
                |a: Seq<char>| trim(a),
            ),
        decreases pieces.len() - k,
    {
        let t = trim_chars(&pieces[k]);
        let ghost before = out.deep_view();
        let s = string_of(&t);
        let ghost sv = s@;
        out.push(s);
        proof {
            lemma_char_vec_deep_view(pieces@[k as int]);
            assert(pieces.deep_view()[k as int] == pieces@[k as int]@);
            assert(out.deep_view() =~= before.push(sv));
            assert(split_char(value@, ',').take(k + 1) =~= split_char(value@, ',').take(
                k as int,
            ).push(split_char(value@, ',')[k as int]));
            assert(out.deep_view() =~= split_char(value@, ',').take(k + 1).map_values(
                |a: Seq<char>| trim(a),
            ));
        }
        k = k + 1;
    }
    proof {
        assert(split_char(value@, ',').take(k as int) =~= split_char(value@, ','));
    }
    out
}

/// The value piece after a flag, trimmed.
fn trimmed_piece(pieces: &Vec<String>, k: usize) -> (r: String)
    requires
        k < pieces.len(),
    ensures
        r@ == trim(pieces.deep_view()[k as int]),
{
    let c = chars_of(pieces[k].as_str());
    string_of(&trim_chars(&c))
}

/// Reads the flags of a `run` command: the text is cut at each `--` and `=`,
/// and the pieces are read as `parse_pieces` says. `None` where a `file-`
/// flag carries no code block; the command cannot go on then.
pub fn parse_args(arg: String) -> (r: Option<ParsedArgs>)
    ensures
        r.is_some() == parse_args_spec(arg@).is_some(),
        r matches Some(p) ==> parse_args_spec(arg@) == Some(p@),
{
    let mut parsed = ParsedArgs {
        version: String::from_str("*"),
        language: None,
        files: Vec::new(),
        stdin: String::new(),
        args: Vec::new(),
    };
    let pieces = split_flags(arg.as_str());
    let ghost all = pieces.deep_view();
    proof {
        assert(parsed.files.deep_view() =~= Seq::<FileView>::empty());
        assert(parsed.args.deep_view() =~= Seq::<Seq<char>>::empty());
        assert(parsed@ == initial_args());
        assert(all.skip(0) =~= all);
    }
    let mut i: usize = 0;
    while i < pieces.len()
        invariant
            i <= pieces.len(),
            all == pieces.deep_view(),
            all == flag_split(arg@),
            parse_args_spec(arg@) == parse_pieces(all.skip(i as int), parsed@),
        decreases pieces.len() - i,
    {
        let part = chars_of(pieces[i].as_str());
        let key = trim_chars(&part);
        let ghost rest = all.skip(i as int);
        proof {
            assert(rest[0] == part@);
            assert(rest.drop_first() =~= all.skip(i + 1));
            if i + 1 < pieces.len() {
                assert(rest.drop_first().drop_first() =~= all.skip(i + 2));
                assert(rest.drop_first()[0] == all[i + 1]);
            }
        }
        if eq_str(&key, "version") {
            if i + 1 < pieces.len() {
                parsed.set_version(trimmed_piece(&pieces, i + 1));
                i = i + 2;
            } else {
                i = i + 1;
                proof {
                    assert(all.skip(i as int).len() == 0);
                }
            }
        } else if eq_str(&key, "language") {
            if i + 1 < pieces.len() {
                parsed.set_language(trimmed_piece(&pieces, i + 1));
                i = i + 2;
            } else {
                i = i + 1;
                proof {
                    assert(all.skip(i as int).len() == 0);
                }
            }
        } else if eq_str(&key, "stdin") {
            if i + 1 < pieces.len() {
                parsed.set_stdin(trimmed_piece(&pieces, i + 1));
                i = i + 2;
            } else {
                i = i + 1;
                proof {
                    assert(all.skip(i as int).len() == 0);
                }
            }
        } else if eq_str(&key, "args") {
            if i + 1 < pieces.len() {
                let value = chars_of(pieces[i + 1].as_str());
                let new_args = split_args(&value);
                let mut k: usize = 0;
                let ghost start = parsed@;
                while k < new_args.len()
                    invariant
                        k <= new_args.len(),
                        parsed@ == (ParsedArgsView {
                            args: start.args + new_args.deep_view().take(k as int),
                            ..start
                        }),
                    decreases new_args.len() - k,
                {
                    parsed.add_arg(new_args[k].clone());
                    proof {
                        assert(start.args + new_args.deep_view().take(k + 1) =~= (start.args
                            + new_args.deep_view().take(k as int)).push(new_args@[k as int]@));
                    }
                    k = k + 1;
                }
                proof {
                    assert(new_args.deep_view().take(k as int) =~= new_args.deep_view());
                }
                i = i + 2;
            } else {
                i = i + 1;
                proof {
                    assert(all.skip(i as int).len() == 0);
                }
            }
        } else if eq_str(&key, "debug") {
            i = i + 1;
        } else {
            let prefix = chars_of("file-");
            if starts_with(&part, &prefix) {
                let trimmed = string_of(&key);
                let groups = capture_groups(
                    r"(\w*)\s*(?:```)(\w*)?([\s\S]*)(?:```$)",
                    trimmed.as_str(),
                );
                match file_from_flag(&part, groups) {
                    Some(file) => {
                        parsed.add_file(file);
                    },
                    None => {
                        return None;
                    },
                }
            }
            i = i + 1;
        }
    }
    proof {
        assert(all.skip(i as int).len() == 0);
    }
    Some(parsed)
}

// ---------------------------------------------------------------------------
// Output size
// ---------------------------------------------------------------------------

/// Whether an output fits a reply: at most 1120 bytes of UTF-8 and at most
/// 20 lines.
pub open spec fn fits_reply(out: Seq<char>) -> bool {
    !(vstd::utf8::encode_utf8(out).len() > 1120 || lines(out).len() > 20)
}

pub fn check_len(out: &String) -> (b: bool)
    ensures
        b == fits_reply(out@),
{
    let c = chars_of(out.as_str());
    if utf8_len_exceeds(&c, 1120) {
        return false;
    }
    let ls = lines_of(&c);
    proof {
        assert(ls.deep_view().len() == ls.len());
    }
    if ls.len() > 20 {
        return false;
    } else {
        return true;
    }
}

// ---------------------------------------------------------------------------
// The request
// ---------------------------------------------------------------------------

/// What a `run` command does before it calls the service.
pub enum RunPlan {
    /// The code block names no language: the command only says so.
    MissingLanguage,
    /// The request to send.
    Execute(ExecData),
}

pub enum RunPlanView {
    MissingLanguage,
    Execute(ExecDataView),
}

impl View for RunPlan {
    type V = RunPlanView;

    open spec fn view(&self) -> RunPlanView {
        match self {
            RunPlan::MissingLanguage => RunPlanView::MissingLanguage,
            RunPlan::Execute(d) => RunPlanView::Execute(d@),
        }
    }
}

/// The request for a code block in `block_language` with `block_code`, read
/// with the flags `args`: the language of the flags, else that of the block;
/// first the block as a file of the default name, then the flag files; the
/// version, arguments and input of the flags; the default limits.
pub open spec fn exec_request(
    block_language: Seq<char>,
    block_code: Seq<char>,
    args: ParsedArgsView,
) -> ExecDataView {
    ExecDataView {
        language: match args.language {
            Some(l) => l,
            None => block_language,
        },
        version: args.version,
        files: seq![
            FileView { name: default_file_name(), content: block_code, encoding: "utf8"@ },
        ] + args.files,
        stdin: args.stdin,
        args: args.args,
        ..default_exec_data()
    }
}

/// The plan for a `run` command: without a block language, the notice; else
/// the request built from the flags (an absent flag text reads as empty).
/// `None` where the flags cannot be read (a `file-` flag without code block).
pub open spec fn run_plan_spec(
    block_language: Option<Seq<char>>,
    block_code: Seq<char>,
    rawargs: Option<Seq<char>>,
) -> Option<RunPlanView> {
    match block_language {
        None => Some(RunPlanView::MissingLanguage),
        Some(lang) => {
            let text = match rawargs {
                Some(t) => t,
                None => Seq::empty(),
            };
            match parse_args_spec(text) {
                None => None,
                Some(args) => Some(RunPlanView::Execute(exec_request(lang, block_code, args))),
            }
        },
    }
}

pub fn plan_run(block_language: Option<String>, block_code: String, rawargs: Option<String>) -> (r:
    Option<RunPlan>)
    ensures
        r.is_some() == run_plan_spec(block_language.deep_view(), block_code@, rawargs.deep_view()).is_some(),
        r matches Some(p) ==> run_plan_spec(
            block_language.deep_view(),
            block_code@,
            rawargs.deep_view(),
        ) == Some(p@),
{
    match block_language {
        None => Some(RunPlan::MissingLanguage),
        Some(language) => {
            let text = match rawargs {
                Some(t) => t,
                None => String::new(),
            };
            let parsed = parse_args(text);
            match parsed {
                None => None,
                Some(args) => {
                    let ParsedArgs { version, language: arg_language, files: arg_files, stdin, args } =
                        args;
                    let ghost arg_files_view = arg_files.deep_view();
                    let lang = match arg_language {
                        Some(l) => l,
                        None => language,
                    };
                    let mut files: Vec<File> = Vec::new();
                    let first = File { content: block_code, ..File::default() };
                    files.push(first);
                    let mut more = arg_files;
                    files.append(&mut more);
                    proof {
                        assert(files.deep_view() =~= seq![
                            FileView {
                                name: default_file_name(),
                                content: block_code@,
                                encoding: "utf8"@,
                            },
                        ] + arg_files_view);
                    }
                    Some(
                        RunPlan::Execute(
                            ExecData {
                                language: lang,
                                version,
                                files,
                                args,
                                stdin,
                                ..ExecData::default()
                            },
                        ),
                    )
                },
            }
        },
    }
}

// ---------------------------------------------------------------------------
// The reply
// ---------------------------------------------------------------------------

/// The link that every `run` embed carries.
pub open spec fn run_embed_url() -> Seq<char> {
    "https://www.youtube.com/watch?v=dQw4w9WgXcQ"@
}

/// A title in bold.
pub open spec fn bold_title(s: Seq<char>) -> Seq<char> {
    "**"@ + s + "**"@
}

/// The reply to a code block that names no language.
pub open spec fn missing_language_reply() -> ReplyView {
    embed_reply(
        EmbedView {
            description: Some(
                "```ansi\n"@ + ansi_seq(TextColors::Red, BgColors::Unset, Style::Bold)
                    + "please specify a language\n```"@,
            ),
            ..empty_embed()
        },
    )
}

/// The reply to the service's answer: for an output that is blank once
/// trimmed, a notice; for one that fits, the output in a code block with a
/// status button (green "code run" when the exit code is 0, red
/// "code errored" otherwise); for a longer one, a short notice.
pub open spec fn run_reply_spec(out: RawExecResponse) -> ReplyView {
    let lang = out.language@;
    let output = out.run.output@;
    if trim(output).len() == 0 {
        embed_reply(
            EmbedView {
                title: Some(bold_title(lang)),
                url: Some(run_embed_url()),
                description: Some(
                    "```ansi\n"@ + ansi_seq(TextColors::Pink, BgColors::Unset, Style::Bold)
                        + "no output\n```"@,
                ),
                ..empty_embed()
            },
        )
    } else if fits_reply(output) {
        ReplyView {
            content: None,
            embed: Some(
                EmbedView {
                    title: Some(bold_title(lang)),
                    url: Some(run_embed_url()),
                    description: Some("```"@ + lang + "\n"@ + output + "\n```"@),
                    ..empty_embed()
                },
            ),
            button: Some(
                ButtonView {
                    custom_id: "run.status"@,
                    label: if out.run.code == Some(0isize) {
                        "code run"@
                    } else {
                        "code errored"@
                    },
                    success: out.run.code == Some(0isize),
                },
            ),
            ephemeral: false,
        }
    } else {
        text_reply("**output too long**"@)
    }
}

/// The reply when the service gave no usable answer, with the executor's
/// state as `debug` text.
pub open spec fn api_error_reply_spec(debug: Seq<char>) -> ReplyView {
    ReplyView {
        content: Some("**🛑 Error while getting response from api**"@),
        embed: Some(
            EmbedView {
                title: Some("** **"@),
                description: Some("```rs\n"@ + debug + "\n```"@),
                url: Some(run_embed_url()),
                ..empty_embed()
            },
        ),
        button: None,
        ephemeral: true,
    }
}

fn bold_title_text(s: &String) -> (r: String)
    ensures
        r@ == bold_title(s@),
{
    let mut r = String::from_str("**");
    r.append(s.as_str());
    r.append("**");
    r
}

/// The reply to a code block that names no language.
pub fn missing_language() -> (r: Reply)
    ensures
        r@ == missing_language_reply(),
{
    let mut e = Embed::new();
    let mut d = String::from_str("```ansi\n");
    let a = ansi(TextColors::Red, BgColors::Unset, Style::Bold);
    d.append(a.as_str());
    d.append("please specify a language\n```");
    e.description = Some(d);
    Reply::with_embed(e)
}

/// The reply to the service's answer.
pub fn run_reply(out: &RawExecResponse) -> (r: Reply)
    ensures
        r@ == run_reply_spec(*out),
{
    let output_chars = chars_of(out.run.output.as_str());
    let trimmed = trim_chars(&output_chars);
    if trimmed.len() == 0 {
        let mut e = Embed::new();
        e.title = Some(bold_title_text(&out.language));
        e.url = Some(String::from_str("https://www.youtube.com/watch?v=dQw4w9WgXcQ"));
        let mut d = String::from_str("```ansi\n");
        let a = ansi(TextColors::Pink, BgColors::Unset, Style::Bold);
        d.append(a.as_str());
        d.append("no output\n```");
        e.description = Some(d);
        Reply::with_embed(e)
    } else if check_len(&out.run.output) {
        let mut e = Embed::new();
        e.title = Some(bold_title_text(&out.language));
        e.url = Some(String::from_str("https://www.youtube.com/watch?v=dQw4w9WgXcQ"));
        let mut d = String::from_str("```");
        d.append(out.language.as_str());
        d.append("\n");
        d.append(out.run.output.as_str());
        d.append("\n```");
        e.description = Some(d);
        let succeeded = match out.run.code {
            Some(c) => c == 0,
            None => false,
        };
        let label = if succeeded {
            String::from_str("code run")
        } else {
            String::from_str("code errored")
        };
        let button = Button {
            custom_id: String::from_str("run.status"),
            label,
            success: succeeded,
        };
        Reply { content: None, embed: Some(e), button: Some(button), ephemeral: false }
    } else {
        Reply::text(String::from_str("**output too long**"))
    }
}

/// The reply when the service gave no usable answer.
pub fn api_error_reply(debug: &String) -> (r: Reply)
    ensures
        r@ == api_error_reply_spec(debug@),
{
    let mut e = Embed::new();
    e.title = Some(String::from_str("** **"));
    let mut d = String::from_str("```rs\n");
    d.append(debug.as_str());
    d.append("\n```");
    e.description = Some(d);
    e.url = Some(String::from_str("https://www.youtube.com/watch?v=dQw4w9WgXcQ"));
    Reply {
        content: Some(String::from_str("**🛑 Error while getting response from api**")),
        embed: Some(e),
        button: None,
        ephemeral: true,
    }
}

} // verus!
