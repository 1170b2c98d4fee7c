//! The command dispatcher of the console shell.
//!
//! A line is handled in two steps, so that no lock is held while the outside
//! world is asked. `dispatch` echoes the line, carries out what needs nothing
//! from outside and says what it still needs; `report_system_info` and
//! `report_listing` take the answer and finish the command.

use crate::console::{ConsoleView, SharedConsoleState};
use crate::text::{
    decimal, decimal_string, has_no_whitespace, lemma_single_word, lemma_trimmed_ends,
    split_words, texts, trim, trimmed, words_of,
};
use crate::wrap::lemma_wrap_single_word;
use vstd::prelude::*;
use vstd::string::StringExecFns;

verus! {

/// The directory that `ls` lists, and under which its argument is looked up.
pub const MOUNT_ROOT: &'static str = "/spiffs";

/// What an echoed input line starts with.
pub const PROMPT: &'static str = "> ";

/// The line that is shown when the shell starts.
pub const BANNER: &'static str = "Type 'help' for commands.";

/// The answer to `help`.
pub const HELP_TEXT: &'static str = "help, info, clear, ls [path]";

/// The answer to `clear`.
pub const CLEARED_TEXT: &'static str = "Cleared";

/// The answer to `ls` on a directory without entries.
pub const EMPTY_TEXT: &'static str = "(empty)";

/// What stands for a platform version that could not be had.
pub const UNKNOWN_VERSION: &'static str = "unknown";

/// A command of the shell, selected by the first word of the input line.
#[derive(Clone, Debug, PartialEq, Eq)]
pub enum Command {
    Help,
    Info,
    Clear,
    Ls { arg: Option<String> },
    Unknown { token: String },
}

/// What a `Command` stands for.
pub enum CommandView {
    Help,
    Info,
    Clear,
    Ls { arg: Option<Seq<char>> },
    Unknown { token: Seq<char> },
}

impl View for Command {
    type V = CommandView;

    open spec fn view(&self) -> CommandView {
        match *self {
            Command::Help => CommandView::Help,
            Command::Info => CommandView::Info,
            Command::Clear => CommandView::Clear,
            Command::Ls { arg: Some(arg) } => CommandView::Ls { arg: Some(arg@) },
            Command::Ls { arg: None } => CommandView::Ls { arg: None },
            Command::Unknown { token } => CommandView::Unknown { token: token@ },
        }
    }
}

/// What the dispatcher needs from outside before it can finish a command.
#[derive(Clone, Debug, PartialEq, Eq)]
pub enum Query {
    /// Nothing: the command is done.
    Nothing,
    /// The platform version and the free memory.
    SystemInfo,
    /// The entries of the directory at `path`.
    ListDir { path: String },
}

/// What a `Query` stands for.
pub enum QueryView {
    Nothing,
    SystemInfo,
    ListDir { path: Seq<char> },
}

impl View for Query {
    type V = QueryView;

    open spec fn view(&self) -> QueryView {
        match *self {
            Query::Nothing => QueryView::Nothing,
            Query::SystemInfo => QueryView::SystemInfo,
            Query::ListDir { path } => QueryView::ListDir { path: path@ },
        }
    }
}

/// An entry of a directory, as the filesystem reports it.
#[derive(Clone, Debug, PartialEq, Eq)]
pub struct DirEntry {
    pub name: String,
    pub is_dir: bool,
    pub size_bytes: u64,
}

/// Why a directory could not be listed.
#[derive(Clone, Debug, PartialEq, Eq)]
pub enum IoError {
    NotFound,
    PermissionDenied,
    Other(String),
}

impl IoError {
    /// The words that describe the failure.
    pub open spec fn text(self) -> Seq<char> {
        match self {
            IoError::NotFound => "entity not found"@,
            IoError::PermissionDenied => "permission denied"@,
            IoError::Other(message) => message@,
        }
    }

    /// The words that describe the failure.
    pub fn message(&self) -> (message: String)
        ensures
            message@ == self.text(),
    {
        match self {
            IoError::NotFound => String::from_str("entity not found"),
            IoError::PermissionDenied => String::from_str("permission denied"),
            IoError::Other(message) => message.clone(),
        }
    }
}

/// The command that a non-empty sequence of words selects: the first word
/// decides, by exact match; `ls` takes the second word as its argument.
pub open spec fn command_for(words: Seq<Seq<char>>) -> CommandView {
    let token = words[0];
    if token == "help"@ {
        CommandView::Help
    } else if token == "info"@ {
        CommandView::Info
    } else if token == "clear"@ {
        CommandView::Clear
    } else if token == "ls"@ {
        CommandView::Ls { arg: if words.len() > 1 { Some(words[1]) } else { None } }
    } else {
        CommandView::Unknown { token }
    }
}

/// The command on an input line, or `None` for a line that trims to nothing.
pub open spec fn command_of(line: Seq<char>) -> Option<CommandView> {
    let input = trimmed(line);
    if input.len() == 0 {
        None
    } else {
        Some(command_for(words_of(input)))
    }
}

/// The echo of an input line in the log.
pub open spec fn echo_line(line: Seq<char>) -> Seq<char> {
    PROMPT@ + trimmed(line)
}

/// The path that `ls` lists: the mount root, or the argument below it.
pub open spec fn listing_path(arg: Option<Seq<char>>) -> Seq<char> {
    match arg {
        Some(arg) => MOUNT_ROOT@ + "/"@ + arg,
        None => MOUNT_ROOT@,
    }
}

/// The line that announces a listing.
pub open spec fn listing_header(path: Seq<char>) -> Seq<char> {
    "Listing "@ + path
}

/// The answer to a command that the shell does not know.
pub open spec fn unknown_line(token: Seq<char>) -> Seq<char> {
    "Unknown: "@ + token
}

/// The line of `info` that shows the platform version.
pub open spec fn version_line(version: Option<String>) -> Seq<char> {
    match version {
        Some(version) => "IDF: "@ + version@,
        None => "IDF: "@ + UNKNOWN_VERSION@,
    }
}

/// The line of `info` that shows the free memory.
pub open spec fn heap_line(free_bytes: nat) -> Seq<char> {
    "Heap: "@ + decimal(free_bytes) + " bytes"@
}

/// The line of a listing that shows one entry: its name and, in brackets, a
/// directory marker or its size in bytes.
pub open spec fn entry_line(entry: DirEntry) -> Seq<char> {
    if entry.is_dir {
        "- "@ + entry.name@ + " ("@ + "[DIR]"@ + ")"@
    } else {
        "- "@ + entry.name@ + " ("@ + decimal(entry.size_bytes as nat) + "B"@ + ")"@
    }
}

/// The line that reports a failed listing.
pub open spec fn error_line(error: IoError) -> Seq<char> {
    "ls error: "@ + error.text()
}

/// The messages that answer a listing: one per entry, or a remark that there
/// are none, or the error.
pub open spec fn listing_messages(listing: Result<Vec<DirEntry>, IoError>) -> Seq<Seq<char>> {
    match listing {
        Ok(entries) => if entries@.len() == 0 {
            seq![EMPTY_TEXT@]
        } else {
            Seq::new(entries@.len(), |i: int| entry_line(entries@[i]))
        },
        Err(error) => seq![error_line(error)],
    }
}

/// The console after `dispatch` has handled `line`. A line that trims to
/// nothing changes nothing. Any other line is echoed first; then `help` and an
/// unknown command are answered, `clear` empties the log and confirms, `ls`
/// announces the path it will list, and `info` waits for its answer.
pub open spec fn dispatched(state: ConsoleView, line: Seq<char>) -> ConsoleView {
    match command_of(line) {
        None => state,
        Some(command) => {
            let echoed = state.add_message(echo_line(line));
            match command {
                CommandView::Help => echoed.add_message(HELP_TEXT@),
                CommandView::Info => echoed,
                CommandView::Clear => echoed.clear().add_message(CLEARED_TEXT@),
                CommandView::Ls { arg } => echoed.add_message(listing_header(listing_path(arg))),
                CommandView::Unknown { token } => echoed.add_message(unknown_line(token)),
            }
        },
    }
}

/// What `dispatch` asks for after it has handled `line`.
pub open spec fn query_of(line: Seq<char>) -> QueryView {
    match command_of(line) {
        Some(CommandView::Info) => QueryView::SystemInfo,
        Some(CommandView::Ls { arg }) => QueryView::ListDir { path: listing_path(arg) },
        _ => QueryView::Nothing,
    }
}

/// `a` followed by `b`.
fn concat(a: &str, b: &str) -> (s: String)
    ensures
        s@ == a@ + b@,
{
    let mut s = String::from_str(a);
    s.append(b);
    s
}

/// Reads the command on an input line. Leading and trailing whitespace does
/// not count; a line with nothing else holds no command.
pub fn parse_command(line: &str) -> (command: Option<Command>)
    ensures
        command is None <==> command_of(line@) is None,
        command matches Some(c) ==> command_of(line@) == Some(c@),
{
    let input = trim(line);
    if input.is_empty() {
        return None;
    }
    let words = split_words(input);
    proof {
        lemma_trimmed_ends(line@);
        assert(texts(words@)[0] == words@[0]@);
        if words@.len() > 1 {
            assert(texts(words@)[1] == words@[1]@);
        }
    }
    let token = words[0].clone();
    if token == String::from_str("help") {
        Some(Command::Help)
    } else if token == String::from_str("info") {
        Some(Command::Info)
    } else if token == String::from_str("clear") {
        Some(Command::Clear)
    } else if token == String::from_str("ls") {
        if words.len() > 1 {
            Some(Command::Ls { arg: Some(words[1].clone()) })
        } else {
            Some(Command::Ls { arg: None })
        }
    } else {
        Some(Command::Unknown { token })
    }
}

/// The path that `ls` lists for its argument.
pub fn resolve_path(arg: &Option<String>) -> (path: String)
    ensures
        path@ == listing_path(
            match *arg {
                Some(a) => Some(a@),
                None => None,
            },
        ),
{
    match arg {
        Some(arg) => {
            let mut path = concat(MOUNT_ROOT, "/");
            path.append(arg.as_str());
            path
        },
        None => String::from_str(MOUNT_ROOT),
    }
}

/// Shows the start-up banner.
pub fn greet(state: &mut SharedConsoleState)
    requires
        old(state)@.wf(),
    ensures
        final(state)@ == old(state)@.add_message(BANNER@),
        final(state)@.wf(),
{
    state.add_message(String::from_str(BANNER));
}

/// Handles one input line as far as the console itself can, and says what it
/// needs from outside to finish.
pub fn dispatch(line: &str, state: &mut SharedConsoleState) -> (query: Query)
    requires
        old(state)@.wf(),
    ensures
        final(state)@ == dispatched(old(state)@, line@),
        query@ == query_of(line@),
        final(state)@.wf(),
{
    match parse_command(line) {
        None => Query::Nothing,
        Some(command) => {
            state.add_message(concat(PROMPT, trim(line)));
            match command {
                Command::Help => {
                    state.add_message(String::from_str(HELP_TEXT));
                    Query::Nothing
                },
                Command::Info => Query::SystemInfo,
                Command::Clear => {
                    state.clear();
                    state.add_message(String::from_str(CLEARED_TEXT));
                    Query::Nothing
                },
                Command::Ls { arg } => {
                    let path = resolve_path(&arg);
                    state.add_message(concat("Listing ", path.as_str()));
                    Query::ListDir { path }
                },
                Command::Unknown { token } => {
                    state.add_message(concat("Unknown: ", token.as_str()));
                    Query::Nothing
                },
            }
        },
    }
}

/// Finishes `info`: shows the platform version, or that it is unknown, and the
/// free memory.
pub fn report_system_info(
    state: &mut SharedConsoleState,
    version: Option<String>,
    free_bytes: u64,
)
    requires
        old(state)@.wf(),
    ensures
        final(state)@ == old(state)@.add_message(version_line(version)).add_message(
            heap_line(free_bytes as nat),
        ),
        final(state)@.wf(),
{
    let version_text = match &version {
        Some(version) => concat("IDF: ", version.as_str()),
        None => concat("IDF: ", UNKNOWN_VERSION),
    };
    state.add_message(version_text);
    let mut heap_text = concat("Heap: ", decimal_string(free_bytes).as_str());
    heap_text.append(" bytes");
    state.add_message(heap_text);
}

/// The line of a listing for `entry`.
pub fn format_entry(entry: &DirEntry) -> (line: String)
    ensures
        line@ == entry_line(*entry),
{
    let mut line = concat("- ", entry.name.as_str());
    line.append(" (");
    if entry.is_dir {
        line.append("[DIR]");
    } else {
        line.append(decimal_string(entry.size_bytes).as_str());
        line.append("B");
    }
    line.append(")");
    line
}

/// Finishes `ls`: shows one line per entry, or that there are none, or the
/// error that the filesystem reported.
pub fn report_listing(state: &mut SharedConsoleState, listing: Result<Vec<DirEntry>, IoError>)
    requires
        old(state)@.wf(),
    ensures
        final(state)@ == old(state)@.add_messages(listing_messages(listing)),
        final(state)@.wf(),
{
    let ghost messages = listing_messages(listing);
    match &listing {
        Ok(entries) => {
            if entries.len() == 0 {
                state.add_message(String::from_str(EMPTY_TEXT));
                proof {
                    lemma_add_messages_push(old(state)@, Seq::empty(), EMPTY_TEXT@);
                    assert(Seq::<Seq<char>>::empty().push(EMPTY_TEXT@) =~= messages);
                }
            } else {
                let mut i: usize = 0;
                assert(messages.take(0) =~= Seq::<Seq<char>>::empty());
                while i < entries.len()
                    invariant
                        i <= entries.len(),
                        entries.len() > 0,
                        listing == Ok::<Vec<DirEntry>, IoError>(*entries),
                        messages == listing_messages(listing),
                        state@.wf(),
                        state@ == old(state)@.add_messages(messages.take(i as int)),
                    decreases entries.len() - i,
                {
                    state.add_message(format_entry(&entries[i]));
                    proof {
                        lemma_add_messages_push(
                            old(state)@,
                            messages.take(i as int),
                            messages[i as int],
                        );
                        assert(messages.take(i as int).push(messages[i as int]) =~= messages.take(
                            i + 1,
                        ));
                    }
                    i += 1;
                }
                assert(messages.take(entries.len() as int) =~= messages);
            }
        },
        Err(error) => {
            state.add_message(concat("ls error: ", error.message().as_str()));
            proof {
                lemma_add_messages_push(old(state)@, Seq::empty(), error_line(*error));
                assert(Seq::<Seq<char>>::empty().push(error_line(*error)) =~= messages);
            }
        },
    }
}

/// Adding messages one after another is adding all but the last, then the last.
pub proof fn lemma_add_messages_push(state: ConsoleView, msgs: Seq<Seq<char>>, msg: Seq<char>)
    ensures
        state.add_messages(msgs.push(msg)) == state.add_messages(msgs).add_message(msg),
    decreases msgs.len(),
{
    let all = msgs.push(msg);
    if msgs.len() == 0 {
        assert(all.drop_first() =~= Seq::<Seq<char>>::empty());
        assert(state.add_messages(all) == state.add_message(all[0]).add_messages(
            all.drop_first(),
        ));
    } else {
        assert(all.drop_first() =~= msgs.drop_first().push(msg));
        lemma_add_messages_push(state.add_message(msgs[0]), msgs.drop_first(), msg);
        assert(state.add_messages(all) == state.add_message(all[0]).add_messages(
            all.drop_first(),
        ));
    }
}

/// `clear` leaves exactly one line in the log, the confirmation, whatever the
/// log held before, as long as the log can hold a line at all.
pub proof fn lemma_clear_leaves_confirmation(state: ConsoleView, line: Seq<char>)
    requires
        state.max_lines >= 1,
        command_of(line) == Some(CommandView::Clear),
    ensures
        dispatched(state, line).lines == seq![CLEARED_TEXT@],
        dispatched(state, line).redraw_pending,
{
    reveal_strlit("Cleared");
    let text = CLEARED_TEXT@;
    assert(has_no_whitespace(text));
    lemma_single_word(text);
    lemma_wrap_single_word(text, state.max_chars);
    assert(Seq::<Seq<char>>::empty() + seq![text] =~= seq![text]);
}

/// Every line that holds a command marks a redraw as pending.
pub proof fn lemma_dispatch_marks_redraw(state: ConsoleView, line: Seq<char>)
    requires
        command_of(line) is Some,
    ensures
        dispatched(state, line).redraw_pending,
{
}

} // verus!
