//! The `herdr tmux` commands.
use crate::schema::{LaunchEnv, TmuxAttachParams};
use crate::text;
use crate::tmux;
use vstd::prelude::*;

verus! {

pub const TMUX_LIST_USAGE: &'static str = "usage: herdr tmux list";

pub const TMUX_ATTACH_USAGE: &'static str =
    "usage: herdr tmux attach <session> [--label TEXT] [--cwd PATH] [--env KEY=VALUE] [--focus] [--no-focus]";

/// The exit code of a command line that is not understood.
pub const USAGE_EXIT_CODE: i32 = 2;

/// What a `herdr tmux` command line asks for.
#[derive(Debug)]
pub enum TmuxCommand {
    /// Print the help, then exit with the code.
    Help { exit_code: i32 },
    /// Print the message, then exit with [`USAGE_EXIT_CODE`].
    Reject { message: String },
    /// List the sessions.
    List,
    /// Attach a session, with the arguments from the given position on.
    Attach { first: usize },
}

/// Reads the subcommand.
pub fn run_tmux_command(args: &[String]) -> (command: TmuxCommand)
    ensures
        ({
            let words = text::words(args@);
            if words.len() == 0 {
                command == (TmuxCommand::Help { exit_code: USAGE_EXIT_CODE })
            } else if words[0] == "list"@ {
                if words.len() == 1 {
                    command == TmuxCommand::List
                } else {
                    command matches TmuxCommand::Reject { message } && message@ == TMUX_LIST_USAGE@
                }
            } else if words[0] == "attach"@ {
                command == (TmuxCommand::Attach { first: 1 })
            } else if words[0] == "help"@ || words[0] == "--help"@ || words[0] == "-h"@ {
                command == (TmuxCommand::Help { exit_code: 0 })
            } else {
                command == (TmuxCommand::Help { exit_code: USAGE_EXIT_CODE })
            }
        }),
{
    if args.len() == 0 {
        return TmuxCommand::Help { exit_code: USAGE_EXIT_CODE };
    }
    let subcommand = args[0].as_str();
    assert(text::words(args@)[0] == subcommand@);
    if subcommand.eq("list") {
        return tmux_list(args, 1);
    }
    if subcommand.eq("attach") {
        return TmuxCommand::Attach { first: 1 };
    }
    if subcommand.eq("help") || subcommand.eq("--help") || subcommand.eq("-h") {
        return TmuxCommand::Help { exit_code: 0 };
    }
    TmuxCommand::Help { exit_code: USAGE_EXIT_CODE }
}

/// Reads the arguments of `list` from position `first` on: it takes none.
pub fn tmux_list(args: &[String], first: usize) -> (command: TmuxCommand)
    requires
        first <= args@.len(),
    ensures
        if first == args@.len() {
            command == TmuxCommand::List
        } else {
            command matches TmuxCommand::Reject { message } && message@ == TMUX_LIST_USAGE@
        },
{
    if args.len() == first {
        TmuxCommand::List
    } else {
        TmuxCommand::Reject { message: TMUX_LIST_USAGE.to_owned() }
    }
}

/// The lines of the help.
pub fn tmux_help() -> (lines: Vec<String>)
    ensures
        text::words(lines@) == seq![
            "herdr tmux commands:"@,
            "  herdr tmux list"@,
            "  "@ + TMUX_ATTACH_USAGE@,
        ],
{
    let lines: Vec<String> = vec![
        "herdr tmux commands:".to_owned(),
        "  herdr tmux list".to_owned(),
        "  ".to_owned().concat(TMUX_ATTACH_USAGE),
    ];
    assert(text::words(lines@) =~= seq![
        "herdr tmux commands:"@,
        "  herdr tmux list"@,
        "  "@ + TMUX_ATTACH_USAGE@,
    ]);
    lines
}

/// What the arguments of `attach` have asked for so far.
#[derive(Debug)]
pub struct AttachDraft {
    pub session: Option<String>,
    pub label: Option<String>,
    pub cwd: Option<String>,
    pub focus: bool,
    pub env: LaunchEnv,
}

/// An [`AttachDraft`] by its characters.
pub struct DraftView {
    pub session: Option<Seq<char>>,
    pub label: Option<Seq<char>>,
    pub cwd: Option<Seq<char>>,
    pub focus: bool,
    pub env: Map<Seq<char>, Seq<char>>,
}

impl View for AttachDraft {
    type V = DraftView;

    open spec fn view(&self) -> DraftView {
        DraftView {
            session: text::optional(self.session),
            label: text::optional(self.label),
            cwd: text::optional(self.cwd),
            focus: self.focus,
            env: self.env@,
        }
    }
}

/// The arguments of `attach`, read up to a position.
#[derive(Debug)]
pub struct AttachParser {
    pub args: Vec<String>,
    pub index: usize,
    pub draft: AttachDraft,
}

/// What reading the arguments of `attach` needs next.
#[derive(Debug)]
pub enum AttachArgs {
    /// The absolute form of the path, for [`AttachParser::path_normalized`].
    NormalizePath { value: String, parser: AttachParser },
    /// The variable that the assignment sets, for [`AttachParser::env_parsed`].
    ParseEnv { value: String, parser: AttachParser },
    /// Nothing: print the message, then exit with [`USAGE_EXIT_CODE`].
    Reject { message: String },
    /// Nothing: send this request.
    Request { params: TmuxAttachParams },
}

/// An [`AttachArgs`] by its characters. A parser is given by its arguments, its
/// position and its draft.
pub enum ArgsView {
    NormalizePath { value: Seq<char>, words: Seq<Seq<char>>, index: int, draft: DraftView },
    ParseEnv { value: Seq<char>, words: Seq<Seq<char>>, index: int, draft: DraftView },
    Reject { message: Seq<char> },
    Request { draft: DraftView },
}

impl View for AttachArgs {
    type V = ArgsView;

    open spec fn view(&self) -> ArgsView {
        match self {
            AttachArgs::NormalizePath { value, parser } => ArgsView::NormalizePath {
                value: value@,
                words: text::words(parser.args@),
                index: parser.index as int,
                draft: parser.draft@,
            },
            AttachArgs::ParseEnv { value, parser } => ArgsView::ParseEnv {
                value: value@,
                words: text::words(parser.args@),
                index: parser.index as int,
                draft: parser.draft@,
            },
            AttachArgs::Reject { message } => ArgsView::Reject { message: message@ },
            AttachArgs::Request { params } => ArgsView::Request {
                draft: DraftView {
                    session: Some(params.session@),
                    label: text::optional(params.label),
                    cwd: text::optional(params.cwd),
                    focus: params.focus,
                    env: params.env@,
                },
            },
        }
    }
}

/// The request that a complete draft makes.
pub open spec fn request_of(draft: DraftView) -> ArgsView {
    match draft.session {
        Some(session) => match tmux::session_name_problem(session) {
            Some(problem) => ArgsView::Reject { message: problem },
            None => ArgsView::Request { draft },
        },
        None => ArgsView::Reject { message: TMUX_ATTACH_USAGE@ },
    }
}

/// The option takes a value.
pub open spec fn takes_value(option: Seq<char>) -> bool {
    option == "--label"@ || option == "--cwd"@ || option == "--env"@
}

/// What reading `words` from position `index` on comes to: an option's value
/// follows it, later options replace earlier ones, and one argument that does
/// not start with a dash names the session.
pub open spec fn read_args(words: Seq<Seq<char>>, index: int, draft: DraftView) -> ArgsView
    decreases words.len() - index,
{
    if index < 0 || index >= words.len() {
        request_of(draft)
    } else {
        let word = words[index];
        if takes_value(word) {
            if index + 1 >= words.len() {
                ArgsView::Reject { message: "missing value for "@ + word }
            } else if word == "--label"@ {
                read_args(
                    words,
                    index + 2,
                    DraftView { label: Some(words[index + 1]), ..draft },
                )
            } else if word == "--cwd"@ {
                ArgsView::NormalizePath { value: words[index + 1], words, index: index + 2, draft }
            } else {
                ArgsView::ParseEnv { value: words[index + 1], words, index: index + 2, draft }
            }
        } else if word == "--focus"@ {
            read_args(words, index + 1, DraftView { focus: true, ..draft })
        } else if word == "--no-focus"@ {
            read_args(words, index + 1, DraftView { focus: false, ..draft })
        } else if word.len() > 0 && word[0] == '-' {
            ArgsView::Reject { message: "unknown option: "@ + word }
        } else if draft.session is Some {
            ArgsView::Reject { message: TMUX_ATTACH_USAGE@ }
        } else {
            read_args(words, index + 1, DraftView { session: Some(word), ..draft })
        }
    }
}

/// Nothing asked for yet.
pub open spec fn empty_draft() -> DraftView {
    DraftView { session: None, label: None, cwd: None, focus: false, env: Map::empty() }
}

/// Reads the arguments of `attach`.
pub fn tmux_attach(args: Vec<String>) -> (next: AttachArgs)
    ensures
        next@ == read_args(text::words(args@), 0, empty_draft()),
{
    let draft = AttachDraft {
        session: None,
        label: None,
        cwd: None,
        focus: false,
        env: LaunchEnv::new(),
    };
    AttachParser { args, index: 0, draft }.resume()
}

fn missing_value(option: &str) -> (next: AttachArgs)
    ensures
        next@ == (ArgsView::Reject { message: "missing value for "@ + option@ }),
{
    AttachArgs::Reject { message: "missing value for ".to_owned().concat(option) }
}

impl AttachParser {
    /// Reads on from the parser's position.
    #[verifier::loop_isolation(false)]
    fn resume(self) -> (next: AttachArgs)
        ensures
            next@ == read_args(text::words(self.args@), self.index as int, self.draft@),
    {
        let args = self.args;
        let mut index: usize = self.index;
        let mut draft = self.draft;
        let ghost words = text::words(args@);
        let ghost goal = read_args(words, index as int, draft@);
        while index < args.len()
            invariant
                words == text::words(args@),
                goal == read_args(words, index as int, draft@),
            decreases args@.len() - index,
        {
            let word = args[index].as_str();
            assert(word@ == words[index as int]);
            if word.eq("--label") || word.eq("--cwd") || word.eq("--env") {
                if index + 1 >= args.len() {
                    return missing_value(word);
                }
                let value = args[index + 1].clone();
                assert(value@ == words[index + 1]);
                if word.eq("--label") {
                    draft.label = Some(value);
                    index = index + 2;
                } else if word.eq("--cwd") {
                    let parser = AttachParser { args, index: index + 2, draft };
                    return AttachArgs::NormalizePath { value, parser };
                } else {
                    let parser = AttachParser { args, index: index + 2, draft };
                    return AttachArgs::ParseEnv { value, parser };
                }
            } else if word.eq("--focus") {
                draft.focus = true;
                index = index + 1;
            } else if word.eq("--no-focus") {
                draft.focus = false;
                index = index + 1;
            } else if word.unicode_len() > 0 && word.get_char(0) == '-' {
                return AttachArgs::Reject { message: "unknown option: ".to_owned().concat(word) };
            } else {
                if draft.session.is_some() {
                    return AttachArgs::Reject { message: TMUX_ATTACH_USAGE.to_owned() };
                }
                draft.session = Some(word.to_owned());
                index = index + 1;
            }
        }
        let session = match draft.session {
            Some(session) => session,
            None => {
                return AttachArgs::Reject { message: TMUX_ATTACH_USAGE.to_owned() };
            },
        };
        match tmux::validate_session_name(session.as_str()) {
            Ok(()) => AttachArgs::Request {
                params: TmuxAttachParams {
                    session,
                    focus: draft.focus,
                    label: draft.label,
                    cwd: draft.cwd,
                    env: draft.env,
                },
            },
            Err(message) => AttachArgs::Reject { message },
        }
    }

    /// Reads on with the absolute form of the path that `--cwd` gave.
    pub fn path_normalized(self, path: String) -> (next: AttachArgs)
        ensures
            next@ == read_args(
                text::words(self.args@),
                self.index as int,
                DraftView { cwd: Some(path@), ..self.draft@ },
            ),
    {
        let draft = AttachDraft {
            session: self.draft.session,
            label: self.draft.label,
            cwd: Some(path),
            focus: self.draft.focus,
            env: self.draft.env,
        };
        AttachParser { args: self.args, index: self.index, draft }.resume()
    }

    /// Reads on with the variable that `--env` sets, or ends with why it sets
    /// none.
    pub fn env_parsed(self, parsed: Result<(String, String), String>) -> (next: AttachArgs)
        ensures
            next@ == (match parsed {
                Ok((name, value)) => read_args(
                    text::words(self.args@),
                    self.index as int,
                    DraftView { env: self.draft.env@.insert(name@, value@), ..self.draft@ },
                ),
                Err(message) => ArgsView::Reject { message: message@ },
            }),
    {
        match parsed {
            Ok((name, value)) => {
                let draft = AttachDraft {
                    session: self.draft.session,
                    label: self.draft.label,
                    cwd: self.draft.cwd,
                    focus: self.draft.focus,
                    env: self.draft.env.with(name, value),
                };
                AttachParser { args: self.args, index: self.index, draft }.resume()
            },
            Err(message) => AttachArgs::Reject { message },
        }
    }
}

/// Reading goes forward in the same arguments: a question is asked past those
/// read before, so that answering each question comes to an end.
pub proof fn lemma_reading_goes_forward(words: Seq<Seq<char>>, index: int, draft: DraftView)
    requires
        0 <= index <= words.len(),
    ensures
        match read_args(words, index, draft) {
            ArgsView::NormalizePath { words: same, index: next, .. } => same == words && index + 2
                <= next <= words.len(),
            ArgsView::ParseEnv { words: same, index: next, .. } => same == words && index + 2
                <= next <= words.len(),
            _ => true,
        },
    decreases words.len() - index,
{
    if index < words.len() {
        let word = words[index];
        if takes_value(word) {
            if index + 1 < words.len() && word == "--label"@ {
                lemma_reading_goes_forward(
                    words,
                    index + 2,
                    DraftView { label: Some(words[index + 1]), ..draft },
                );
            }
        } else if word == "--focus"@ {
            lemma_reading_goes_forward(words, index + 1, DraftView { focus: true, ..draft });
        } else if word == "--no-focus"@ {
            lemma_reading_goes_forward(words, index + 1, DraftView { focus: false, ..draft });
        } else if !(word.len() > 0 && word[0] == '-') && draft.session is None {
            lemma_reading_goes_forward(words, index + 1, DraftView { session: Some(word), ..draft });
        }
    }
}

/// A request names a session by a valid name, so that the server does not
/// refuse the name.
pub proof fn lemma_request_names_valid_session(
    words: Seq<Seq<char>>,
    index: int,
    draft: DraftView,
)
    ensures
        read_args(words, index, draft) matches ArgsView::Request { draft: asked }
            ==> asked.session matches Some(session) && tmux::session_name_problem(session) is None,
    decreases words.len() - index,
{
    if 0 <= index < words.len() {
        let word = words[index];
        if takes_value(word) {
            if index + 1 < words.len() && word == "--label"@ {
                lemma_request_names_valid_session(
                    words,
                    index + 2,
                    DraftView { label: Some(words[index + 1]), ..draft },
                );
            }
        } else if word == "--focus"@ {
            lemma_request_names_valid_session(words, index + 1, DraftView { focus: true, ..draft });
        } else if word == "--no-focus"@ {
            lemma_request_names_valid_session(
                words,
                index + 1,
                DraftView { focus: false, ..draft },
            );
        } else if !(word.len() > 0 && word[0] == '-') && draft.session is None {
            lemma_request_names_valid_session(
                words,
                index + 1,
                DraftView { session: Some(word), ..draft },
            );
        }
    }
}

/// The name of a session alone asks to attach it without focus, label,
/// directory and variables.
pub proof fn lemma_session_alone_is_attached(session: Seq<char>)
    requires
        tmux::session_name_problem(session) is None,
        session[0] != '-',
    ensures
        read_args(seq![session], 0, empty_draft()) == (ArgsView::Request {
            draft: DraftView { session: Some(session), ..empty_draft() },
        }),
{
    reveal_strlit("--label");
    reveal_strlit("--cwd");
    reveal_strlit("--env");
    reveal_strlit("--focus");
    reveal_strlit("--no-focus");
    reveal_with_fuel(read_args, 2);
}

/// A draft is seen with everything that was asked for.
pub proof fn lemma_draft_is_seen_whole(draft: AttachDraft)
    ensures
        draft@.session == text::optional(draft.session),
        draft@.label == text::optional(draft.label),
        draft@.cwd == text::optional(draft.cwd),
        draft@.focus == draft.focus,
        draft@.env == draft.env@,
        empty_draft().session is None && empty_draft().label is None && empty_draft().cwd is None
            && !empty_draft().focus && empty_draft().env == Map::<Seq<char>, Seq<char>>::empty(),
{
}

/// What reading needs next is seen whole, and a request with everything that it
/// asks for.
pub proof fn lemma_next_is_seen_whole(next: AttachArgs)
    ensures
        match next {
            AttachArgs::NormalizePath { value, parser } => next@ matches ArgsView::NormalizePath {
                value: path,
                words,
                index,
                draft,
            } && path == value@ && words == text::words(parser.args@) && index == parser.index
                && draft == parser.draft@,
            AttachArgs::ParseEnv { value, parser } => next@ matches ArgsView::ParseEnv {
                value: assignment,
                words,
                index,
                draft,
            } && assignment == value@ && words == text::words(parser.args@) && index
                == parser.index && draft == parser.draft@,
            AttachArgs::Reject { message } => next@ matches ArgsView::Reject { message: told }
                && told == message@,
            AttachArgs::Request { params } => next@ matches ArgsView::Request { draft }
                && draft.session == Some(params.session@) && draft.label == text::optional(
                params.label,
            ) && draft.cwd == text::optional(params.cwd) && draft.focus == params.focus && draft.env
                == params.env@,
        },
{
}

/// Once every argument is read, what was asked for is the request, where it names
/// a session by a valid name; else the usage or the problem with the name is told.
pub proof fn lemma_read_arguments_are_the_request(words: Seq<Seq<char>>, draft: DraftView)
    ensures
        ({
            let read = read_args(words, words.len() as int, draft);
            match draft.session {
                None => read == (ArgsView::Reject { message: TMUX_ATTACH_USAGE@ }),
                Some(session) => match tmux::session_name_problem(session) {
                    None => read == (ArgsView::Request { draft }),
                    Some(problem) => read == (ArgsView::Reject { message: problem }),
                },
            }
        }),
{
}

/// What each argument does, wherever it stands and whatever was asked for before:
/// an option sets its own part of the request and leaves the others.
pub proof fn lemma_argument_sets_its_part(words: Seq<Seq<char>>, index: int, draft: DraftView)
    requires
        0 <= index < words.len(),
    ensures
        ({
            let word = words[index];
            let read = read_args(words, index, draft);
            let valued = index + 1 < words.len();
            &&& word == "--label"@ && valued ==> read == read_args(
                words,
                index + 2,
                DraftView {
                    session: draft.session,
                    label: Some(words[index + 1]),
                    cwd: draft.cwd,
                    focus: draft.focus,
                    env: draft.env,
                },
            )
            &&& word == "--cwd"@ && valued ==> read == (ArgsView::NormalizePath {
                value: words[index + 1],
                words,
                index: index + 2,
                draft,
            })
            &&& word == "--env"@ && valued ==> read == (ArgsView::ParseEnv {
                value: words[index + 1],
                words,
                index: index + 2,
                draft,
            })
            &&& (word == "--label"@ || word == "--cwd"@ || word == "--env"@) && !valued ==> read
                == (ArgsView::Reject { message: "missing value for "@ + word })
            &&& word == "--focus"@ ==> read == read_args(
                words,
                index + 1,
                DraftView {
                    session: draft.session,
                    label: draft.label,
                    cwd: draft.cwd,
                    focus: true,
                    env: draft.env,
                },
            )
            &&& word == "--no-focus"@ ==> read == read_args(
                words,
                index + 1,
                DraftView {
                    session: draft.session,
                    label: draft.label,
                    cwd: draft.cwd,
                    focus: false,
                    env: draft.env,
                },
            )
            &&& word.len() > 0 && word[0] == '-' && word != "--label"@ && word != "--cwd"@ && word
                != "--env"@ && word != "--focus"@ && word != "--no-focus"@ ==> read == (
            ArgsView::Reject { message: "unknown option: "@ + word })
            &&& (word.len() == 0 || word[0] != '-') && draft.session is Some ==> read == (
            ArgsView::Reject { message: TMUX_ATTACH_USAGE@ })
            &&& (word.len() == 0 || word[0] != '-') && draft.session is None ==> read
                == read_args(
                words,
                index + 1,
                DraftView {
                    session: Some(word),
                    label: draft.label,
                    cwd: draft.cwd,
                    focus: draft.focus,
                    env: draft.env,
                },
            )
        }),
{
    lemma_options_are_told_apart();
}

proof fn lemma_options_are_told_apart()
    ensures
        "--label"@[0] == '-',
        "--cwd"@[0] == '-',
        "--env"@[0] == '-',
        "--focus"@[0] == '-',
        "--no-focus"@[0] == '-',
        "--label"@.len() == 7,
        "--cwd"@.len() == 5,
        "--env"@.len() == 5,
        "--focus"@.len() == 7,
        "--no-focus"@.len() == 10,
        "--label"@ != "--focus"@,
        "--cwd"@ != "--env"@,
{
    reveal_strlit("--label");
    reveal_strlit("--cwd");
    reveal_strlit("--env");
    reveal_strlit("--focus");
    reveal_strlit("--no-focus");
    assert("--label"@[2] != "--focus"@[2]);
    assert("--cwd"@[2] != "--env"@[2]);
}

/// An option at the end of complete arguments counts over all before it: a label
/// replaces any other, `--focus` and `--no-focus` replace each other, and a path
/// or a variable is asked for with the rest of the request as it was. A second
/// session is refused.
pub proof fn lemma_last_option_counts(
    words: Seq<Seq<char>>,
    index: int,
    draft: DraftView,
    asked: DraftView,
    value: Seq<char>,
)
    requires
        0 <= index <= words.len(),
        read_args(words, index, draft) == (ArgsView::Request { draft: asked }),
    ensures
        read_args(words + seq!["--label"@, value], index, draft) == (ArgsView::Request {
            draft: DraftView { label: Some(value), ..asked },
        }),
        read_args(words + seq!["--focus"@], index, draft) == (ArgsView::Request {
            draft: DraftView { focus: true, ..asked },
        }),
        read_args(words + seq!["--no-focus"@], index, draft) == (ArgsView::Request {
            draft: DraftView { focus: false, ..asked },
        }),
        read_args(words + seq!["--cwd"@, value], index, draft) == (ArgsView::NormalizePath {
            value,
            words: words + seq!["--cwd"@, value],
            index: words.len() as int + 2,
            draft: asked,
        }),
        read_args(words + seq!["--env"@, value], index, draft) == (ArgsView::ParseEnv {
            value,
            words: words + seq!["--env"@, value],
            index: words.len() as int + 2,
            draft: asked,
        }),
        value.len() == 0 || value[0] != '-' ==> read_args(words + seq![value], index, draft) == (
        ArgsView::Reject { message: TMUX_ATTACH_USAGE@ }),
{
    let end = words.len() as int;
    lemma_options_are_told_apart();
    lemma_request_names_valid_session(words, index, draft);
    lemma_reading_goes_on(words, seq!["--label"@, value], index, draft, asked);
    lemma_reading_goes_on(words, seq!["--focus"@], index, draft, asked);
    lemma_reading_goes_on(words, seq!["--no-focus"@], index, draft, asked);
    lemma_reading_goes_on(words, seq!["--cwd"@, value], index, draft, asked);
    lemma_reading_goes_on(words, seq!["--env"@, value], index, draft, asked);
    lemma_reading_goes_on(words, seq![value], index, draft, asked);
    lemma_argument_sets_its_part(words + seq!["--label"@, value], end, asked);
    lemma_argument_sets_its_part(words + seq!["--focus"@], end, asked);
    lemma_argument_sets_its_part(words + seq!["--no-focus"@], end, asked);
    lemma_argument_sets_its_part(words + seq!["--cwd"@, value], end, asked);
    lemma_argument_sets_its_part(words + seq!["--env"@, value], end, asked);
    lemma_argument_sets_its_part(words + seq![value], end, asked);
    lemma_read_arguments_are_the_request(
        words + seq!["--label"@, value],
        DraftView { label: Some(value), ..asked },
    );
    lemma_read_arguments_are_the_request(
        words + seq!["--focus"@],
        DraftView { focus: true, ..asked },
    );
    lemma_read_arguments_are_the_request(
        words + seq!["--no-focus"@],
        DraftView { focus: false, ..asked },
    );
}

/// Arguments that are a request are read before what follows them.
proof fn lemma_reading_goes_on(
    words: Seq<Seq<char>>,
    more: Seq<Seq<char>>,
    index: int,
    draft: DraftView,
    asked: DraftView,
)
    requires
        0 <= index <= words.len(),
        read_args(words, index, draft) == (ArgsView::Request { draft: asked }),
    ensures
        read_args(words + more, index, draft) == read_args(words + more, words.len() as int, asked),
    decreases words.len() - index,
{
    if index < words.len() {
        let whole = words + more;
        let word = words[index];
        assert(whole[index] == word);
        if takes_value(word) {
            assert(whole[index + 1] == words[index + 1]);
            lemma_reading_goes_on(
                words,
                more,
                index + 2,
                DraftView { label: Some(words[index + 1]), ..draft },
                asked,
            );
        } else if word == "--focus"@ {
            lemma_reading_goes_on(
                words,
                more,
                index + 1,
                DraftView { focus: true, ..draft },
                asked,
            );
        } else if word == "--no-focus"@ {
            lemma_reading_goes_on(
                words,
                more,
                index + 1,
                DraftView { focus: false, ..draft },
                asked,
            );
        } else {
            lemma_reading_goes_on(
                words,
                more,
                index + 1,
                DraftView { session: Some(word), ..draft },
                asked,
            );
        }
    }
}

/// A label counts before and after the session that it is for.
pub proof fn lemma_label_counts_on_either_side(session: Seq<char>, label: Seq<char>)
    requires
        tmux::session_name_problem(session) is None,
        session[0] != '-',
    ensures
        ({
            let request = ArgsView::Request {
                draft: DraftView { session: Some(session), label: Some(label), ..empty_draft() },
            };
            &&& read_args(seq![session, "--label"@, label], 0, empty_draft()) == request
            &&& read_args(seq!["--label"@, label, session], 0, empty_draft()) == request
        }),
{
    let labelled = DraftView { label: Some(label), ..empty_draft() };
    let asked = DraftView { session: Some(session), ..empty_draft() };
    let after = seq!["--label"@, label, session];
    lemma_session_alone_is_attached(session);
    lemma_last_option_counts(seq![session], 0, empty_draft(), asked, label);
    assert(seq![session] + seq!["--label"@, label] =~= seq![session, "--label"@, label]);
    lemma_argument_sets_its_part(after, 0, empty_draft());
    lemma_argument_sets_its_part(after, 2, labelled);
    lemma_read_arguments_are_the_request(after, DraftView { session: Some(session), ..labelled });
}

/// The arguments `session --label label`, in either order, ask to attach that
/// session with that label, without focus, directory and variables.
pub proof fn lemma_labelled_session_is_asked_for(args: Vec<String>, next: AttachArgs)
    requires
        call_ensures(tmux_attach, (args,), next),
        args@.len() == 3,
    ensures
        args@[1]@ == "--label"@ && args@[0]@.len() > 0 && args@[0]@[0] != '-'
            && tmux::session_name_problem(args@[0]@) is None ==> (next matches AttachArgs::Request {
            params,
        } && params.session@ == args@[0]@ && text::optional(params.label) == Some(args@[2]@)
            && params.cwd is None && !params.focus && params.env@ == Map::<
            Seq<char>,
            Seq<char>,
        >::empty()),
        args@[0]@ == "--label"@ && args@[2]@.len() > 0 && args@[2]@[0] != '-'
            && tmux::session_name_problem(args@[2]@) is None ==> (next matches AttachArgs::Request {
            params,
        } && params.session@ == args@[2]@ && text::optional(params.label) == Some(args@[1]@)
            && params.cwd is None && !params.focus && params.env@ == Map::<
            Seq<char>,
            Seq<char>,
        >::empty()),
{
    let words = text::words(args@);
    lemma_options_are_told_apart();
    if args@[1]@ == "--label"@ && args@[0]@.len() > 0 && args@[0]@[0] != '-'
        && tmux::session_name_problem(args@[0]@) is None {
        assert(words =~= seq![args@[0]@, "--label"@, args@[2]@]);
        lemma_label_counts_on_either_side(args@[0]@, args@[2]@);
    }
    if args@[0]@ == "--label"@ && args@[2]@.len() > 0 && args@[2]@[0] != '-'
        && tmux::session_name_problem(args@[2]@) is None {
        assert(words =~= seq!["--label"@, args@[1]@, args@[2]@]);
        lemma_label_counts_on_either_side(args@[2]@, args@[1]@);
    }
}

/// An answered question sets its own part of the request, over what an earlier
/// option set, and leaves the others; reading then goes on where it stopped.
pub proof fn lemma_answers_set_their_part(
    parser: AttachParser,
    path: String,
    moved: AttachArgs,
    name: String,
    value: String,
    varied: AttachArgs,
    message: String,
    refused: AttachArgs,
)
    requires
        parser.index == parser.args@.len(),
        call_ensures(AttachParser::path_normalized, (parser, path), moved),
        call_ensures(AttachParser::env_parsed, (parser, Ok((name, value))), varied),
        call_ensures(AttachParser::env_parsed, (parser, Err(message)), refused),
    ensures
        moved matches AttachArgs::Request { params } ==> params.cwd is Some && params.cwd->0@
            == path@ && Some(params.session@) == text::optional(parser.draft.session)
            && text::optional(params.label) == text::optional(parser.draft.label) && params.focus
            == parser.draft.focus && params.env@ == parser.draft.env@,
        varied matches AttachArgs::Request { params } ==> params.env@ == parser.draft.env@.insert(
            name@,
            value@,
        ) && Some(params.session@) == text::optional(parser.draft.session) && text::optional(
            params.label,
        ) == text::optional(parser.draft.label) && params.focus == parser.draft.focus
            && text::optional(params.cwd) == text::optional(parser.draft.cwd),
        parser.draft.session matches Some(session) ==> (tmux::session_name_problem(
            session@,
        ) is None ==> moved is Request && varied is Request),
        refused matches AttachArgs::Reject { message: told } && told@ == message@,
{
}

/// Without a subcommand, and with one that is not known, the help is an error; it
/// is none where it is asked for. `list` takes no arguments, and those of `attach`
/// follow it.
pub proof fn lemma_subcommand_is_the_first_argument(args: &[String], command: TmuxCommand)
    requires
        call_ensures(run_tmux_command, (args,), command),
    ensures
        args@.len() == 0 ==> command == (TmuxCommand::Help { exit_code: 2 }),
        args@.len() > 0 ==> {
            let word = args@[0]@;
            &&& word == "attach"@ <==> command is Attach
            &&& command matches TmuxCommand::Attach { first } ==> first == 1
            &&& word == "list"@ && args@.len() == 1 <==> command is List
            &&& word == "list"@ && args@.len() > 1 <==> command is Reject
            &&& command matches TmuxCommand::Reject { message } ==> message@
                == "usage: herdr tmux list"@
            &&& command == (TmuxCommand::Help { exit_code: 0 }) <==> word == "help"@ || word
                == "--help"@ || word == "-h"@
        },
{
    reveal_strlit("list");
    reveal_strlit("attach");
    reveal_strlit("help");
    reveal_strlit("--help");
    reveal_strlit("-h");
    assert("list"@.len() == 4 && "attach"@.len() == 6 && "help"@.len() == 4 && "--help"@.len() == 6
        && "-h"@.len() == 2);
    assert("list"@[0] == 'l' && "help"@[0] == 'h' && "attach"@[0] == 'a' && "--help"@[0] == '-');
    if args@.len() > 0 {
        assert(text::words(args@)[0] == args@[0]@);
    }
}

} // verus!
