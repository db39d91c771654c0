//! tmux sessions: the command lines that list and attach them, and what the
//! listing says.
use crate::text;
use vstd::prelude::*;

verus! {

pub const TMUX_PROGRAM: &'static str = "tmux";

pub const ATTACH_SUBCOMMAND: &'static str = "attach-session";

pub const LIST_SESSIONS_FORMAT: &'static str =
    "#{session_name}\t#{session_windows}\t#{session_attached}\t#{session_created}\t#{session_path}";

#[derive(Debug, Clone, PartialEq, Eq)]
pub struct TmuxSession {
    pub name: String,
    pub windows: usize,
    pub attached: usize,
    pub created_unix: Option<u64>,
    pub path: Option<String>,
}

/// What one line of the listing says of a session.
pub struct SessionRecord {
    pub name: Seq<char>,
    pub windows: nat,
    pub attached: nat,
    pub created_unix: Option<nat>,
    pub path: Option<Seq<char>>,
}

impl View for TmuxSession {
    type V = SessionRecord;

    open spec fn view(&self) -> SessionRecord {
        SessionRecord {
            name: self.name@,
            windows: self.windows as nat,
            attached: self.attached as nat,
            created_unix: match self.created_unix {
                Some(seconds) => Some(seconds as nat),
                None => None,
            },
            path: match self.path {
                Some(path) => Some(path@),
                None => None,
            },
        }
    }
}

#[derive(Debug, Clone, PartialEq, Eq)]
pub enum TmuxError {
    Unavailable(String),
    Failed(String),
}

impl TmuxError {
    /// The error code that the API answers with.
    pub fn code(&self) -> (code: &'static str)
        ensures
            code@ == (match self {
                TmuxError::Unavailable(_) => "tmux_unavailable"@,
                TmuxError::Failed(_) => "tmux_failed"@,
            }),
    {
        match self {
            TmuxError::Unavailable(_) => "tmux_unavailable",
            TmuxError::Failed(_) => "tmux_failed",
        }
    }

    /// The error message that the API answers with.
    pub fn message(&self) -> (message: String)
        ensures
            message@ == (match self {
                TmuxError::Unavailable(detail) => "tmux is not available: "@ + detail@,
                TmuxError::Failed(detail) => "tmux command failed: "@ + detail@,
            }),
    {
        match self {
            TmuxError::Unavailable(detail) => "tmux is not available: ".to_owned().concat(
                detail.as_str(),
            ),
            TmuxError::Failed(detail) => "tmux command failed: ".to_owned().concat(detail.as_str()),
        }
    }
}

/// Why `name` cannot name a session, if it cannot.
pub open spec fn session_name_problem(name: Seq<char>) -> Option<Seq<char>> {
    if name.len() == 0 {
        Some("tmux session name must not be empty"@)
    } else if name.contains('\0') {
        Some("tmux session name must not contain NUL bytes"@)
    } else if name.contains(':') || name.contains('.') {
        Some("tmux session name must not contain ':' or '.'"@)
    } else if text::contains_white_space(name) {
        Some("tmux session name must not contain whitespace"@)
    } else {
        None
    }
}

/// Accepts the names that tmux's target syntax takes literally.
pub fn validate_session_name(name: &str) -> (checked: Result<(), String>)
    ensures
        match checked {
            Ok(()) => session_name_problem(name@) is None,
            Err(message) => session_name_problem(name@) == Some(message@),
        },
{
    let chars = text::chars_of(name);
    if chars.len() == 0 {
        return Err("tmux session name must not be empty".to_owned());
    }
    if text::has_char(&chars, '\0') {
        return Err("tmux session name must not contain NUL bytes".to_owned());
    }
    if text::has_char(&chars, ':') || text::has_char(&chars, '.') {
        return Err("tmux session name must not contain ':' or '.'".to_owned());
    }
    if text::has_white_space(&chars) {
        return Err("tmux session name must not contain whitespace".to_owned());
    }
    Ok(())
}

/// The command line that attaches `session`. The '=' prefix forces an exact
/// name match instead of tmux's prefix match.
pub open spec fn attach_words(session: Seq<char>) -> Seq<Seq<char>> {
    seq![TMUX_PROGRAM@, ATTACH_SUBCOMMAND@, "-t"@, "="@ + session]
}

/// The command line that attaches `session`.
pub fn attach_argv(session: &str) -> (argv: Vec<String>)
    ensures
        text::words(argv@) == attach_words(session@),
{
    let argv: Vec<String> = vec![
        TMUX_PROGRAM.to_owned(),
        ATTACH_SUBCOMMAND.to_owned(),
        "-t".to_owned(),
        "=".to_owned().concat(session),
    ];
    assert(text::words(argv@) =~= attach_words(session@));
    argv
}

/// The session that the command line `words` attaches, if it is an attach
/// command for one.
pub open spec fn attached_session(words: Seq<Seq<char>>) -> Option<Seq<char>> {
    if words.len() == 4 && words[0] == TMUX_PROGRAM@ && words[1] == ATTACH_SUBCOMMAND@ && words[2]
        == "-t"@ && "="@.is_prefix_of(words[3]) && words[3].len() > 1 {
        Some(words[3].skip(1))
    } else {
        None
    }
}

/// The session that a command line attaches, if it is an attach command for
/// one.
pub fn session_name_from_launch_argv(argv: &[String]) -> (name: Option<&str>)
    ensures
        match name {
            Some(name) => attached_session(text::words(argv@)) == Some(name@),
            None => attached_session(text::words(argv@)) is None,
        },
{
    proof {
        reveal_strlit("=");
    }
    let ghost words = text::words(argv@);
    if argv.len() != 4 {
        return None;
    }
    assert(words[0] == argv@[0]@ && words[1] == argv@[1]@ && words[2] == argv@[2]@ && words[3]
        == argv@[3]@);
    if !argv[0].as_str().eq(TMUX_PROGRAM) || !argv[1].as_str().eq(ATTACH_SUBCOMMAND)
        || !argv[2].as_str().eq("-t") {
        return None;
    }
    let target = argv[3].as_str();
    let len: usize = target.unicode_len();
    if len > 1 && target.get_char(0) == '=' {
        assert("="@ =~= target@.subrange(0, 1));
        assert(target@.subrange(1, len as int) == target@.skip(1));
        return Some(target.substring_char(1, len));
    }
    assert(attached_session(words) is None) by {
        if "="@.is_prefix_of(target@) {
            assert(target@.subrange(0, 1)[0] == target@[0]);
        }
    }
    None
}

/// The label of a workspace that was opened for `session`.
pub fn default_label(session: &str) -> (label: String)
    ensures
        label@ == "tmux:"@ + session@,
{
    "tmux:".to_owned().concat(session)
}

/// The trimmed field number `i`, where the line has that many.
pub open spec fn field(fields: Seq<Seq<char>>, i: int) -> Option<Seq<char>> {
    if 0 <= i < fields.len() {
        Some(text::trim(fields[i]))
    } else {
        None
    }
}

/// The number of at most `max` in field number `i`.
pub open spec fn number_field(fields: Seq<Seq<char>>, i: int, max: nat) -> Option<nat> {
    match field(fields, i) {
        Some(value) => text::unsigned_number(value, max),
        None => None,
    }
}

/// The session that one line of the listing describes: tab-separated fields,
/// of which only the name is required.
pub open spec fn session_record(line: Seq<char>) -> Option<SessionRecord> {
    let fields = text::split(line, '\t');
    let name = text::trim(fields[0]);
    if name.len() == 0 {
        None
    } else {
        Some(
            SessionRecord {
                name,
                windows: number_field(fields, 1, usize::MAX as nat).unwrap_or(0),
                attached: number_field(fields, 2, usize::MAX as nat).unwrap_or(0),
                created_unix: number_field(fields, 3, u64::MAX as nat),
                path: match field(fields, 4) {
                    Some(path) => if path.len() > 0 {
                        Some(path)
                    } else {
                        None
                    },
                    None => None,
                },
            },
        )
    }
}

/// The sessions that the listing `output` describes, one to a line. A carriage
/// return before the line feed is white space at the end of the last field.
pub open spec fn session_records(output: Seq<char>) -> Seq<SessionRecord> {
    text::split(output, '\n').filter_map(|line: Seq<char>| session_record(line))
}

/// The records of `sessions`.
pub open spec fn records(sessions: Seq<TmuxSession>) -> Seq<SessionRecord> {
    sessions.map_values(|session: TmuxSession| session@)
}

fn number_at(fields: &Vec<Vec<char>>, i: usize, max: u64) -> (value: Option<u64>)
    ensures
        match value {
            Some(v) => number_field(text::char_lists(fields@), i as int, max as nat) == Some(
                v as nat,
            ),
            None => number_field(text::char_lists(fields@), i as int, max as nat) is None,
        },
{
    if i < fields.len() {
        text::parse_unsigned(text::trimmed(&fields[i]), max)
    } else {
        None
    }
}

fn parse_session(line: &[char]) -> (session: Option<TmuxSession>)
    ensures
        match session {
            Some(session) => session_record(line@) == Some(session@),
            None => session_record(line@) is None,
        },
{
    let fields = text::split_chars(line, '\t');
    proof {
        text::lemma_split_not_empty(line@, '\t');
    }
    let name = text::trimmed(&fields[0]);
    if name.len() == 0 {
        return None;
    }
    let windows: usize = match number_at(&fields, 1, usize::MAX as u64) {
        Some(windows) => windows as usize,
        None => 0,
    };
    let attached: usize = match number_at(&fields, 2, usize::MAX as u64) {
        Some(attached) => attached as usize,
        None => 0,
    };
    let created_unix = number_at(&fields, 3, u64::MAX);
    let path = if fields.len() > 4 {
        let path = text::trimmed(&fields[4]);
        if path.len() > 0 {
            Some(text::string_of(path))
        } else {
            None
        }
    } else {
        None
    };
    Some(TmuxSession { name: text::string_of(name), windows, attached, created_unix, path })
}

/// Reads a listing in [`LIST_SESSIONS_FORMAT`].
pub fn parse_list_sessions(output: &str) -> (sessions: Vec<TmuxSession>)
    ensures
        records(sessions@) == session_records(output@),
{
    let lines = text::split_chars(&text::chars_of(output), '\n');
    let ghost all = text::split(output@, '\n');
    let ghost read = |line: Seq<char>| session_record(line);
    let mut sessions: Vec<TmuxSession> = Vec::new();
    let mut i: usize = 0;
    assert(all.take(0).filter_map(read) =~= Seq::<SessionRecord>::empty());
    while i < lines.len()
        invariant
            i <= lines@.len(),
            all == text::char_lists(lines@),
            read == (|line: Seq<char>| session_record(line)),
            records(sessions@) == all.take(i as int).filter_map(read),
        decreases lines@.len() - i,
    {
        let ghost before = sessions@;
        proof {
            all.lemma_filter_map_take_succ(read, i as int);
        }
        match parse_session(&lines[i]) {
            Some(session) => {
                sessions.push(session);
                assert(records(sessions@) =~= records(before).push(session@));
            },
            None => {},
        }
        i = i + 1;
    }
    assert(all.take(i as int) == all);
    sessions
}

/// tmux says in `stderr` that it has no session to list.
pub open spec fn says_no_server(stderr: Seq<char>) -> bool {
    let stderr = text::trim(stderr);
    ||| text::contains_text(stderr, "no server running"@)
    ||| text::contains_text(stderr, "no sessions"@)
    ||| text::contains_text(stderr, "error connecting to"@)
}

/// Whether tmux says in `stderr` that it has no session to list.
pub fn no_server_output(stderr: &str) -> (b: bool)
    ensures
        b == says_no_server(stderr@),
{
    let stderr = text::chars_of(stderr);
    let stderr = text::trimmed(&stderr);
    text::has_text(stderr, &text::chars_of("no server running")) || text::has_text(
        stderr,
        &text::chars_of("no sessions"),
    ) || text::has_text(stderr, &text::chars_of("error connecting to"))
}

/// What a listing command came to: the sessions, none where there is no server
/// to ask, or the error.
pub open spec fn is_listing(
    listed: Result<Vec<TmuxSession>, TmuxError>,
    success: bool,
    stdout: Seq<char>,
    stderr: Seq<char>,
) -> bool {
    match listed {
        Ok(sessions) => {
            ||| success && records(sessions@) == session_records(stdout)
            ||| !success && says_no_server(stderr) && sessions@.len() == 0
        },
        Err(TmuxError::Failed(detail)) => {
            &&& !success
            &&& !says_no_server(stderr)
            &&& detail@ == text::trim(stderr)
        },
        Err(TmuxError::Unavailable(_)) => false,
    }
}

/// Judges a listing command by what it printed.
pub fn listing_from_text(success: bool, stdout: &str, stderr: &str) -> (listed: Result<
    Vec<TmuxSession>,
    TmuxError,
>)
    ensures
        is_listing(listed, success, stdout@, stderr@),
{
    if success {
        return Ok(parse_list_sessions(stdout));
    }
    if no_server_output(stderr) {
        return Ok(Vec::new());
    }
    let stderr = text::chars_of(stderr);
    Err(TmuxError::Failed(text::string_of(text::trimmed(&stderr))))
}

/// How a command ended and what it printed.
#[derive(Debug, Clone, PartialEq, Eq)]
pub struct CommandOutput {
    pub success: bool,
    pub stdout: Vec<u8>,
    pub stderr: Vec<u8>,
}

/// The text that `String::from_utf8_lossy` makes of the given bytes.
pub uninterp spec fn lossy_text(bytes: Seq<u8>) -> Seq<char>;

/// What a command printed, as text: the characters that the bytes encode, or
/// the lossy decoding of bytes that are no UTF-8.
pub open spec fn output_text(bytes: Seq<u8>) -> Seq<char> {
    if vstd::utf8::valid_utf8(bytes) {
        vstd::utf8::decode_utf8(bytes)
    } else {
        lossy_text(bytes)
    }
}

/// `String::from_utf8_lossy`: valid UTF-8 comes out as the characters that it
/// encodes; for other bytes the result is named, and where its replacement
/// characters stand is not stated.
#[verifier::external_body]
fn utf8_lossy(bytes: &[u8]) -> (decoded: String)
    ensures
        decoded@ == (if vstd::utf8::valid_utf8(bytes@) {
            vstd::utf8::decode_utf8(bytes@)
        } else {
            lossy_text(bytes@)
        }),
{
    String::from_utf8_lossy(bytes).into_owned()
}

/// The sessions that tmux listed, from the output of the listing command or
/// the reason why it could not be run.
pub fn listed_sessions(run: Result<CommandOutput, String>) -> (listed: Result<
    Vec<TmuxSession>,
    TmuxError,
>)
    ensures
        match run {
            Ok(output) => is_listing(
                listed,
                output.success,
                output_text(output.stdout@),
                output_text(output.stderr@),
            ),
            Err(reason) => listed == Err::<Vec<TmuxSession>, TmuxError>(
                TmuxError::Unavailable(reason),
            ),
        },
{
    match run {
        Ok(output) => {
            let stdout = utf8_lossy(&output.stdout);
            let stderr = utf8_lossy(&output.stderr);
            listing_from_text(output.success, stdout.as_str(), stderr.as_str())
        },
        Err(reason) => Err(TmuxError::Unavailable(reason)),
    }
}

/// The arguments of the listing command.
pub fn list_sessions_args() -> (args: Vec<String>)
    ensures
        text::words(args@) == seq!["list-sessions"@, "-F"@, LIST_SESSIONS_FORMAT@],
{
    let args: Vec<String> = vec![
        "list-sessions".to_owned(),
        "-F".to_owned(),
        LIST_SESSIONS_FORMAT.to_owned(),
    ];
    assert(text::words(args@) =~= seq!["list-sessions"@, "-F"@, LIST_SESSIONS_FORMAT@]);
    args
}

/// A command line attaches a session exactly where it is the one that is made
/// to attach that session, whose name is not empty.
pub proof fn lemma_attach_command_names_session(words: Seq<Seq<char>>, session: Seq<char>)
    ensures
        attached_session(words) == Some(session) <==> session.len() > 0 && words == attach_words(
            session,
        ),
{
    reveal_strlit("=");
    if session.len() > 0 && words == attach_words(session) {
        assert("="@ =~= words[3].subrange(0, 1));
        assert(words[3].skip(1) =~= session);
    }
    if attached_session(words) == Some(session) {
        assert("="@ + session =~= words[3]) by {
            assert(words[3].subrange(0, 1)[0] == words[3][0]);
        }
        assert(words =~= attach_words(session));
    }
}

/// The command line that attaches a session of a valid name is recognized as
/// attaching that session.
pub proof fn lemma_valid_name_round_trips(session: Seq<char>)
    requires
        session_name_problem(session) is None,
    ensures
        attached_session(attach_words(session)) == Some(session),
{
    lemma_attach_command_names_session(attach_words(session), session);
}

/// Different sessions have different labels by default.
pub proof fn lemma_default_labels_differ(a: Seq<char>, b: Seq<char>)
    requires
        "tmux:"@ + a == "tmux:"@ + b,
    ensures
        a == b,
{
    let head = "tmux:"@;
    assert((head + a).skip(head.len() as int) =~= a);
    assert((head + b).skip(head.len() as int) =~= b);
}

/// A listing is read line by line: what one line says does not depend on the
/// others.
pub proof fn lemma_listing_reads_by_line(a: Seq<char>, b: Seq<char>)
    ensures
        session_records(a + seq!['\n'] + b) == session_records(a) + session_records(b),
{
    let read = |line: Seq<char>| session_record(line);
    text::lemma_split_at_separator(a, '\n', b);
    lemma_filter_map_of_sum(text::split(a, '\n'), text::split(b, '\n'), read);
}

proof fn lemma_filter_map_of_sum(
    a: Seq<Seq<char>>,
    b: Seq<Seq<char>>,
    read: spec_fn(Seq<char>) -> Option<SessionRecord>,
)
    ensures
        (a + b).filter_map(read) == a.filter_map(read) + b.filter_map(read),
    decreases b.len(),
{
    let whole = a + b;
    if b.len() == 0 {
        assert(whole =~= a);
        assert(b =~= Seq::empty());
        assert(b.filter_map(read) =~= Seq::empty());
    } else {
        let n = b.len() - 1;
        lemma_filter_map_of_sum(a, b.drop_last(), read);
        whole.lemma_filter_map_take_succ(read, whole.len() - 1);
        b.lemma_filter_map_take_succ(read, n);
        assert(whole.take(whole.len() as int) =~= whole);
        assert(whole.take(whole.len() - 1) =~= a + b.drop_last());
        assert(b.take(b.len() as int) =~= b);
        assert(b.take(n) =~= b.drop_last());
        assert(whole[whole.len() - 1] == b[n]);
    }
}

/// A blank line lists nothing.
pub proof fn lemma_blank_line_lists_nothing(line: Seq<char>)
    requires
        forall|i: int| 0 <= i < line.len() ==> text::white_space(#[trigger] line[i]),
    ensures
        session_record(line) is None,
{
    let name = text::split(line, '\t')[0];
    text::lemma_split_not_empty(line, '\t');
    assert forall|k: int| 0 <= k < name.len() implies text::white_space(#[trigger] name[k]) by {
        assert(name.contains(name[k]));
        text::lemma_piece_is_part(line, '\t', 0, name[k]);
        let j = choose|j: int| 0 <= j < line.len() && line[j] == name[k];
        assert(text::white_space(line[j]));
    }
    text::lemma_blank_trims_away(name);
}

/// Text that stands in a field of the listing as it is: without tabs and line
/// feeds, and without white space at its ends.
pub open spec fn fits_field(value: Seq<char>) -> bool {
    &&& value.len() > 0
    &&& !text::white_space(value[0])
    &&& !text::white_space(value.last())
    &&& !value.contains('\t')
    &&& !value.contains('\n')
}

/// A session that the listing can tell of in full.
pub open spec fn listable(record: SessionRecord) -> bool {
    &&& fits_field(record.name)
    &&& record.windows <= usize::MAX
    &&& record.attached <= usize::MAX
    &&& record.created_unix matches Some(seconds) ==> seconds <= u64::MAX
    &&& record.path matches Some(path) ==> fits_field(path)
}

/// Every session that is read from a listing can be listed: it has a name, and
/// its name and path stand without white space around them.
pub proof fn lemma_listed_sessions_are_listable(output: Seq<char>, i: int)
    requires
        0 <= i < session_records(output).len(),
    ensures
        listable(session_records(output)[i]),
{
    let read = |line: Seq<char>| session_record(line);
    let lines = text::split(output, '\n');
    let record = session_records(output)[i];
    assert(session_records(output).contains(record));
    lines.lemma_filter_map_contains(read, record);
    let line = choose|line: Seq<char>| #[trigger] lines.contains(line) && read(line) == Some(record);
    let k = choose|k: int| 0 <= k < lines.len() && lines[k] == line;
    text::lemma_split_is_exact(output, '\n');
    assert(!lines[k].contains('\n'));
    lemma_record_is_listable(line);
}

proof fn lemma_record_is_listable(line: Seq<char>)
    requires
        !line.contains('\n'),
    ensures
        session_record(line) matches Some(record) ==> listable(record),
{
    let fields = text::split(line, '\t');
    text::lemma_split_not_empty(line, '\t');
    if session_record(line) is Some {
        lemma_trimmed_field_fits(line, 0);
        if fields.len() > 4 && text::trim(fields[4]).len() > 0 {
            lemma_trimmed_field_fits(line, 4);
        }
    }
}

proof fn lemma_trimmed_field_fits(line: Seq<char>, i: int)
    requires
        !line.contains('\n'),
        0 <= i < text::split(line, '\t').len(),
        text::trim(text::split(line, '\t')[i]).len() > 0,
    ensures
        fits_field(text::trim(text::split(line, '\t')[i])),
{
    let piece = text::split(line, '\t')[i];
    text::lemma_trimmed_ends(piece);
    text::lemma_trim_is_part(piece, '\t');
    text::lemma_trim_is_part(piece, '\n');
    text::lemma_split_is_exact(line, '\t');
    if piece.contains('\n') {
        text::lemma_piece_is_part(line, '\t', i, '\n');
    }
}

/// The fields of the line for a session.
pub open spec fn listing_fields(record: SessionRecord) -> Seq<Seq<char>> {
    seq![
        record.name,
        text::decimal(record.windows),
        text::decimal(record.attached),
        match record.created_unix {
            Some(seconds) => text::decimal(seconds),
            None => Seq::empty(),
        },
        match record.path {
            Some(path) => path,
            None => Seq::empty(),
        },
    ]
}

/// The line for a session.
pub open spec fn listing_line(record: SessionRecord) -> Seq<char> {
    text::join_pieces(listing_fields(record), '\t')
}

/// The listing of the sessions: a line for each, ended by a line feed.
pub open spec fn listing(sessions: Seq<SessionRecord>) -> Seq<char>
    decreases sessions.len(),
{
    if sessions.len() == 0 {
        Seq::empty()
    } else {
        listing(sessions.drop_last()) + listing_line(sessions.last()) + seq!['\n']
    }
}

proof fn lemma_digits_hold_neither(n: nat)
    ensures
        !text::decimal(n).contains('\t'),
        !text::decimal(n).contains('\n'),
        text::trim(text::decimal(n)) == text::decimal(n),
{
    let digits = text::decimal(n);
    text::lemma_decimal_reads_back(n, n);
    assert forall|i: int| 0 <= i < digits.len() implies digits[i] != '\t' && digits[i] != '\n'
        && !text::white_space(#[trigger] digits[i]) by {
        assert(text::decimal_digit(digits[i]) is Some);
    }
    text::lemma_trim_keeps(digits);
}

/// The line for a session reads back as that session.
pub proof fn lemma_listing_line_reads_back(record: SessionRecord)
    requires
        listable(record),
    ensures
        session_record(listing_line(record)) == Some(record),
        !listing_line(record).contains('\n'),
{
    let fields = listing_fields(record);
    let line = listing_line(record);
    lemma_digits_hold_neither(record.windows);
    lemma_digits_hold_neither(record.attached);
    match record.created_unix {
        Some(seconds) => {
            lemma_digits_hold_neither(seconds);
            text::lemma_decimal_reads_back(seconds, u64::MAX as nat);
        },
        None => {},
    }
    assert forall|i: int| 0 <= i < fields.len() implies !(#[trigger] fields[i]).contains('\t')
        && !fields[i].contains('\n') by {}
    lemma_join_of_five(fields);
    text::lemma_decimal_reads_back(record.windows, usize::MAX as nat);
    text::lemma_decimal_reads_back(record.attached, usize::MAX as nat);
    text::lemma_trim_keeps(record.name);
    match record.path {
        Some(path) => {
            text::lemma_trim_keeps(path);
        },
        None => {},
    }
    text::lemma_trim_keeps(Seq::<char>::empty());
}

proof fn lemma_join_of_five(fields: Seq<Seq<char>>)
    requires
        fields.len() == 5,
        forall|i: int|
            0 <= i < fields.len() ==> !(#[trigger] fields[i]).contains('\t')
                && !fields[i].contains('\n'),
    ensures
        text::split(text::join_pieces(fields, '\t'), '\t') == fields,
        !text::join_pieces(fields, '\t').contains('\n'),
{
    reveal_with_fuel(text::join_pieces, 6);
    let one = fields[0];
    let two = one + seq!['\t'] + fields[1];
    let three = two + seq!['\t'] + fields[2];
    let four = three + seq!['\t'] + fields[3];
    let five = four + seq!['\t'] + fields[4];
    assert(text::join_pieces(fields, '\t') == five);
    assert(!fields[0].contains('\t') && !fields[1].contains('\t') && !fields[2].contains('\t')
        && !fields[3].contains('\t') && !fields[4].contains('\t'));
    text::lemma_split_whole(fields[0], '\t');
    text::lemma_split_whole(fields[1], '\t');
    text::lemma_split_whole(fields[2], '\t');
    text::lemma_split_whole(fields[3], '\t');
    text::lemma_split_whole(fields[4], '\t');
    text::lemma_split_at_separator(one, '\t', fields[1]);
    text::lemma_split_at_separator(two, '\t', fields[2]);
    text::lemma_split_at_separator(three, '\t', fields[3]);
    text::lemma_split_at_separator(four, '\t', fields[4]);
    assert(seq![one] + seq![fields[1]] + seq![fields[2]] + seq![fields[3]] + seq![fields[4]]
        =~= fields);
    lemma_no_line_feed(one, fields[1]);
    lemma_no_line_feed(two, fields[2]);
    lemma_no_line_feed(three, fields[3]);
    lemma_no_line_feed(four, fields[4]);
}

proof fn lemma_no_line_feed(a: Seq<char>, b: Seq<char>)
    requires
        !a.contains('\n'),
        !b.contains('\n'),
    ensures
        !(a + seq!['\t'] + b).contains('\n'),
{
    let whole = a + seq!['\t'] + b;
    assert forall|i: int| 0 <= i < whole.len() implies whole[i] != '\n' by {
        if i < a.len() {
            assert(a.contains(a[i]));
        } else if i > a.len() {
            assert(b.contains(b[i - a.len() - 1]));
        }
    }
}

/// The listing of the sessions reads back as those sessions, in their order.
pub proof fn lemma_listing_reads_back(sessions: Seq<SessionRecord>)
    requires
        forall|i: int| 0 <= i < sessions.len() ==> listable(#[trigger] sessions[i]),
    ensures
        session_records(listing(sessions)) == sessions,
    decreases sessions.len(),
{
    let read = |line: Seq<char>| session_record(line);
    let nothing = Seq::<char>::empty();
    assert(session_records(nothing) =~= Seq::empty()) by {
        lemma_blank_line_lists_nothing(nothing);
        let lines = text::split(nothing, '\n');
        lines.lemma_filter_map_take_succ(read, 0);
        assert(lines.take(1) =~= lines);
        assert(lines.take(0).filter_map(read) =~= Seq::empty());
    }
    if sessions.len() > 0 {
        let shorter = sessions.drop_last();
        let before = listing(shorter);
        let line = listing_line(sessions.last());
        lemma_listing_reads_back(shorter);
        lemma_listing_line_reads_back(sessions.last());
        assert(session_records(line) =~= seq![sessions.last()]) by {
            text::lemma_split_whole(line, '\n');
            let lines = text::split(line, '\n');
            lines.lemma_filter_map_take_succ(read, 0);
            assert(lines.take(1) =~= lines);
            assert(lines.take(0).filter_map(read) =~= Seq::empty());
        }
        assert(session_records(before + line) == shorter + seq![sessions.last()]) by {
            if shorter.len() == 0 {
                assert(before + line =~= line);
                assert(shorter + seq![sessions.last()] =~= seq![sessions.last()]);
            } else {
                let body = listing(shorter.drop_last()) + listing_line(shorter.last());
                assert(before =~= body + seq!['\n']);
                lemma_listing_reads_by_line(body, line);
                lemma_listing_reads_by_line(body, nothing);
                assert(before =~= body + seq!['\n'] + nothing);
                assert(session_records(body) =~= shorter);
            }
        }
        lemma_listing_reads_by_line(before + line, nothing);
        assert(listing(sessions) =~= before + line + seq!['\n'] + nothing);
        assert(shorter + seq![sessions.last()] =~= sessions);
    }
}

/// A name is accepted exactly where it is not empty and holds no NUL, colon, dot
/// or white space. Of several problems the first of these is told.
pub proof fn lemma_name_problems(name: Seq<char>)
    ensures
        session_name_problem(name) is None <==> name.len() > 0 && forall|i: int|
            0 <= i < name.len() ==> #[trigger] name[i] != '\0' && name[i] != ':' && name[i] != '.'
                && !text::white_space(name[i]),
        name.len() == 0 ==> session_name_problem(name) == Some(
            "tmux session name must not be empty"@,
        ),
        name.contains('\0') ==> session_name_problem(name) == Some(
            "tmux session name must not contain NUL bytes"@,
        ),
        (name.contains(':') || name.contains('.')) && !name.contains('\0')
            ==> session_name_problem(name) == Some("tmux session name must not contain ':' or '.'"@),
        (exists|i: int| 0 <= i < name.len() && text::white_space(#[trigger] name[i]))
            && !name.contains('\0') && !name.contains(':') && !name.contains('.')
            ==> session_name_problem(name) == Some("tmux session name must not contain whitespace"@),
{
    if session_name_problem(name) is None {
        assert forall|i: int| 0 <= i < name.len() implies #[trigger] name[i] != '\0' && name[i]
            != ':' && name[i] != '.' && !text::white_space(name[i]) by {
            assert(name.contains(name[i]));
        }
    }
}

/// A session is attached by tmux's `attach-session` with the exact name as
/// target.
pub proof fn lemma_attach_command(session: Seq<char>)
    ensures
        attach_words(session) == seq!["tmux"@, "attach-session"@, "-t"@, "="@ + session],
{
}

/// What each field of a line says, whatever stands in the others: the first
/// names the session and has to; the next three are numbers, where windows and
/// clients that cannot be read count as none; the fifth is the path; further
/// fields say nothing. White space around a field says nothing either.
pub proof fn lemma_line_says_by_field(fields: Seq<Seq<char>>)
    requires
        fields.len() > 0,
        forall|i: int| 0 <= i < fields.len() ==> !(#[trigger] fields[i]).contains('\t'),
    ensures
        match session_record(text::join_pieces(fields, '\t')) {
            None => text::trim(fields[0]).len() == 0,
            Some(record) => {
                &&& text::trim(fields[0]).len() > 0
                &&& record.name == text::trim(fields[0])
                &&& Some(record.windows) == (if fields.len() > 1 && text::unsigned_number(
                    text::trim(fields[1]),
                    usize::MAX as nat,
                ) is Some {
                    text::unsigned_number(text::trim(fields[1]), usize::MAX as nat)
                } else {
                    Some(0)
                })
                &&& Some(record.attached) == (if fields.len() > 2 && text::unsigned_number(
                    text::trim(fields[2]),
                    usize::MAX as nat,
                ) is Some {
                    text::unsigned_number(text::trim(fields[2]), usize::MAX as nat)
                } else {
                    Some(0)
                })
                &&& record.created_unix == (if fields.len() > 3 {
                    text::unsigned_number(text::trim(fields[3]), u64::MAX as nat)
                } else {
                    None
                })
                &&& record.path == (if fields.len() > 4 && text::trim(fields[4]).len() > 0 {
                    Some(text::trim(fields[4]))
                } else {
                    None
                })
            },
        },
{
    text::lemma_join_splits_back(fields, '\t');
}

/// White space before or after a line, other than a tab before it, says nothing.
pub proof fn lemma_line_end_says_nothing(line: Seq<char>)
    requires
        !line.contains('\t'),
    ensures
        session_record(line) == session_record(text::trim(line)),
{
    text::lemma_trim_is_part(line, '\t');
    text::lemma_split_whole(line, '\t');
    text::lemma_split_whole(text::trim(line), '\t');
    text::lemma_trimmed_ends(line);
    text::lemma_trim_keeps(text::trim(line));
}

/// A listing of one line lists what that line says. With
/// [`lemma_listing_reads_by_line`] this is what every listing lists.
pub proof fn lemma_one_line_lists_one_session(line: Seq<char>)
    requires
        !line.contains('\n'),
    ensures
        session_records(line) == (match session_record(line) {
            Some(record) => seq![record],
            None => Seq::empty(),
        }),
{
    let read = |line: Seq<char>| session_record(line);
    text::lemma_split_whole(line, '\n');
    Seq::lemma_filter_map_singleton(line, read);
}

/// The sessions are told one for one, with every field as it is.
pub proof fn lemma_records_one_for_one(sessions: Seq<TmuxSession>)
    ensures
        records(sessions).len() == sessions.len(),
        forall|i: int| 0 <= i < sessions.len() ==> {
            &&& (#[trigger] records(sessions)[i]).name == sessions[i].name@
            &&& records(sessions)[i].windows == sessions[i].windows
            &&& records(sessions)[i].attached == sessions[i].attached
            &&& match (records(sessions)[i].created_unix, sessions[i].created_unix) {
                (Some(told), Some(seconds)) => told == seconds,
                (None, None) => true,
                _ => false,
            }
            &&& records(sessions)[i].path == text::optional(sessions[i].path)
        },
{
}

/// tmux has no session to list exactly where one of its three messages stands
/// anywhere in what it printed.
pub proof fn lemma_no_server_by_message(stderr: Seq<char>)
    ensures
        says_no_server(stderr) <==> text::contains_text(stderr, "no server running"@)
            || text::contains_text(stderr, "no sessions"@) || text::contains_text(
            stderr,
            "error connecting to"@,
        ),
{
    reveal_strlit("no server running");
    reveal_strlit("no sessions");
    reveal_strlit("error connecting to");
    text::lemma_trim_hides_no_text(stderr, "no server running"@);
    text::lemma_trim_hides_no_text(stderr, "no sessions"@);
    text::lemma_trim_hides_no_text(stderr, "error connecting to"@);
}

/// A listing command that succeeded lists what it printed, whatever it
/// complained of. One that failed lists nothing where there is no server, and
/// else is an error with what it complained of.
pub proof fn lemma_listing_outcome(
    listed: Result<Vec<TmuxSession>, TmuxError>,
    success: bool,
    stdout: Seq<char>,
    stderr: Seq<char>,
)
    requires
        is_listing(listed, success, stdout, stderr),
    ensures
        success ==> (listed matches Ok(sessions) && records(sessions@) == session_records(stdout)),
        !success && says_no_server(stderr) ==> (listed matches Ok(sessions) && sessions@.len() == 0),
        !success && !says_no_server(stderr) ==> (listed matches Err(TmuxError::Failed(detail))
            && detail@ == text::trim(stderr)),
{
}

/// Output in UTF-8 is the text that was encoded.
pub proof fn lemma_utf8_output_is_its_text(printed: Seq<char>)
    ensures
        output_text(vstd::utf8::encode_utf8(printed)) == printed,
{
    vstd::utf8::encode_utf8_valid_utf8(printed);
    vstd::utf8::encode_utf8_decode_utf8(printed);
}

/// The command line that is made to attach a session is recognized as attaching
/// it, and no other command line is.
pub proof fn lemma_attach_round_trip(
    session: &str,
    argv: Vec<String>,
    command: &[String],
    name: Option<&str>,
)
    requires
        call_ensures(attach_argv, (session,), argv),
        call_ensures(session_name_from_launch_argv, (command,), name),
    ensures
        session@.len() > 0 && text::words(command@) == text::words(argv@) ==> name is Some
            && name->0@ == session@,
        name is Some && name->0@ == session@ ==> text::words(command@) == text::words(argv@),
{
    lemma_attach_command_names_session(text::words(command@), session@);
}

/// A listing of sessions is read as those sessions.
pub proof fn lemma_printed_listing_is_read(
    listed: Seq<SessionRecord>,
    output: &str,
    sessions: Vec<TmuxSession>,
)
    requires
        forall|i: int| 0 <= i < listed.len() ==> listable(#[trigger] listed[i]),
        output@ == listing(listed),
        call_ensures(parse_list_sessions, (output,), sessions),
    ensures
        records(sessions@) == listed,
{
    lemma_listing_reads_back(listed);
}

/// The listing is what tmux printed where it succeeded, and none where it says
/// that it has no server. A command that could not be run is told apart from one
/// that failed, and each error carries its reason.
pub proof fn lemma_run_is_judged_by_its_output(
    printed: Seq<char>,
    complained: Seq<char>,
    output: CommandOutput,
    listed: Result<Vec<TmuxSession>, TmuxError>,
    reason: String,
    unavailable: Result<Vec<TmuxSession>, TmuxError>,
)
    requires
        output.stdout@ == vstd::utf8::encode_utf8(printed),
        output.stderr@ == vstd::utf8::encode_utf8(complained),
        call_ensures(listed_sessions, (Ok(output),), listed),
        call_ensures(listed_sessions, (Err(reason),), unavailable),
    ensures
        output.success ==> (listed matches Ok(sessions) && records(sessions@) == session_records(
            printed,
        )),
        !output.success && (text::contains_text(complained, "no server running"@)
            || text::contains_text(complained, "no sessions"@) || text::contains_text(
            complained,
            "error connecting to"@,
        )) ==> (listed matches Ok(sessions) && sessions@.len() == 0),
        !output.success && !says_no_server(complained) ==> (listed matches Err(
            TmuxError::Failed(detail),
        ) && detail@ == text::trim(complained)),
        unavailable matches Err(TmuxError::Unavailable(detail)) && detail == reason,
{
    lemma_utf8_output_is_its_text(printed);
    lemma_utf8_output_is_its_text(complained);
    lemma_no_server_by_message(complained);
    lemma_listing_outcome(listed, output.success, printed, complained);
}

/// The code of an error tells which it is, and its message ends with the reason.
pub proof fn lemma_errors_are_told_apart(
    error: TmuxError,
    code: &'static str,
    message: String,
)
    requires
        call_ensures(TmuxError::code, (&error,), code),
        call_ensures(TmuxError::message, (&error,), message),
    ensures
        match error {
            TmuxError::Unavailable(reason) => code@ == "tmux_unavailable"@ && message@
                == "tmux is not available: "@ + reason@,
            TmuxError::Failed(reason) => code@ == "tmux_failed"@ && message@
                == "tmux command failed: "@ + reason@,
        },
{
}

/// A name that is accepted has no problem, and one that is refused has the one
/// that is told.
pub proof fn lemma_refused_name_has_the_problem(name: &str, checked: Result<(), String>)
    requires
        call_ensures(validate_session_name, (name,), checked),
    ensures
        checked is Ok <==> name@.len() > 0 && forall|i: int|
            0 <= i < name@.len() ==> #[trigger] name@[i] != '\0' && name@[i] != ':' && name@[i]
                != '.' && !text::white_space(name@[i]),
        checked matches Err(problem) ==> session_name_problem(name@) == Some(problem@),
{
    lemma_name_problems(name@);
}

/// A workspace is named after its session with `tmux:` before it.
pub proof fn lemma_label_names_the_session(session: &str, label: String)
    requires
        call_ensures(default_label, (session,), label),
    ensures
        label@ == "tmux:"@ + session@,
{
}

} // verus!
