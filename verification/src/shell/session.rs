//! The shell as a state machine: what was typed, or came back from the last request,
//! goes in; what to print and what to request next comes out.

use vstd::prelude::*;

use crate::bytes;
use crate::shell::answer;
use crate::shell::answer::PromptCheck;
use crate::shell::codec;
use crate::shell::codec::Entry;
use crate::shell::history;
use crate::shell::history::Qa;
use crate::shell::history::QaRecord;
use crate::shell::log_view;
use crate::shell::log_view::LogCommand;
use crate::shell::replay;
use crate::shell::text;

verus! {

/// How many tokens the model may generate for one prompt.
pub const BITNET_SHELL_N_PREDICT: i32 = 64;

/// The size of the model's context.
pub const BITNET_SHELL_N_CTX: i32 = 512;

/// The size of the buffer that the model generates into.
pub const BITNET_OUTPUT_BUF_LEN: usize = 16384;

/// What a typed line is taken for.
#[derive(Clone, Copy, PartialEq, Eq, Structural)]
pub enum RamShellMode {
    Command,
    Prompt,
    Log,
}

/// A line in command mode or in prompt mode.
pub enum ShellCommand {
    Nothing,
    Help,
    Clear,
    Reset,
    EraseMemory,
    Forget(Vec<u8>),
    EnterPrompt,
    Ask(Vec<u8>),
    Log,
    Exit,
    Reboot,
    Cancel,
    Unknown(Vec<u8>),
}

/// A line in command mode or in prompt mode, over byte strings.
pub enum Command {
    Nothing,
    Help,
    Clear,
    Reset,
    EraseMemory,
    Forget(Seq<u8>),
    EnterPrompt,
    Ask(Seq<u8>),
    Log,
    Exit,
    Reboot,
    Cancel,
    Unknown(Seq<u8>),
}

impl View for ShellCommand {
    type V = Command;

    open spec fn view(&self) -> Command {
        match self {
            ShellCommand::Nothing => Command::Nothing,
            ShellCommand::Help => Command::Help,
            ShellCommand::Clear => Command::Clear,
            ShellCommand::Reset => Command::Reset,
            ShellCommand::EraseMemory => Command::EraseMemory,
            ShellCommand::Forget(p) => Command::Forget(p@),
            ShellCommand::EnterPrompt => Command::EnterPrompt,
            ShellCommand::Ask(p) => Command::Ask(p@),
            ShellCommand::Log => Command::Log,
            ShellCommand::Exit => Command::Exit,
            ShellCommand::Reboot => Command::Reboot,
            ShellCommand::Cancel => Command::Cancel,
            ShellCommand::Unknown(p) => Command::Unknown(p@),
        }
    }
}

/// What follows `prefix` in `b`.
pub open spec fn rest_after(b: Seq<u8>, prefix: Seq<u8>) -> Option<Seq<u8>> {
    if codec::starts_with(b, prefix) {
        Some(b.subrange(prefix.len() as int, b.len() as int))
    } else {
        None
    }
}

/// What a request to forget names: what follows `forget ` or `erase `.
pub open spec fn forget_phrase(t: Seq<u8>) -> Option<Seq<u8>> {
    match rest_after(t, bytes::ascii("forget "@)) {
        Some(p) => Some(p),
        None => rest_after(t, bytes::ascii("erase "@)),
    }
}

/// What a line in command mode, white space at its ends aside, asks for.
pub open spec fn command_of(t: Seq<u8>) -> Command {
    if t.len() == 0 {
        Command::Nothing
    } else if t == bytes::ascii("help"@) {
        Command::Help
    } else if t == bytes::ascii("clear"@) {
        Command::Clear
    } else if t == bytes::ascii("reset"@) {
        Command::Reset
    } else if t == bytes::ascii("erase memory"@) {
        Command::EraseMemory
    } else if forget_phrase(t) is Some {
        Command::Forget(forget_phrase(t)->0)
    } else if t == bytes::ascii("prompt"@) {
        Command::EnterPrompt
    } else if rest_after(t, bytes::ascii("prompt "@)) is Some {
        Command::Ask(rest_after(t, bytes::ascii("prompt "@))->0)
    } else if t == bytes::ascii("log"@) {
        Command::Log
    } else if t == bytes::ascii("exit"@) {
        Command::Exit
    } else if t == bytes::ascii("reboot"@) {
        Command::Reboot
    } else {
        Command::Unknown(t)
    }
}

/// What a line in prompt mode, white space at its ends aside, asks for.
pub open spec fn prompt_command_of(t: Seq<u8>) -> Command {
    if t == bytes::ascii("cancel"@) {
        Command::Cancel
    } else if t == bytes::ascii("exit"@) {
        Command::Exit
    } else if t == bytes::ascii("reboot"@) {
        Command::Reboot
    } else if t == bytes::ascii("erase memory"@) {
        Command::EraseMemory
    } else if forget_phrase(t) is Some {
        Command::Forget(forget_phrase(t)->0)
    } else if t == bytes::ascii("clear"@) {
        Command::Clear
    } else {
        Command::Ask(t)
    }
}

fn copy_after(b: &[u8], prefix: &[u8]) -> (r: Option<Vec<u8>>)
    ensures
        text::text_option(r) == rest_after(b@, prefix@),
{
    if codec::has_prefix(b, prefix) {
        Some(bytes::to_vec(&b[prefix.len()..b.len()]))
    } else {
        None
    }
}

fn parse_forget(t: &[u8]) -> (r: Option<Vec<u8>>)
    ensures
        text::text_option(r) == forget_phrase(t@),
{
    proof {
        reveal_strlit("forget ");
        reveal_strlit("erase ");
    }
    match copy_after(t, bytes::lit("forget ")) {
        Some(p) => Some(p),
        None => copy_after(t, bytes::lit("erase ")),
    }
}

/// Reads a line typed in command mode.
pub fn parse_command(t: &[u8]) -> (r: ShellCommand)
    ensures
        r@ == command_of(t@),
{
    proof {
        reveal_strlit("help");
        reveal_strlit("clear");
        reveal_strlit("reset");
        reveal_strlit("erase memory");
        reveal_strlit("prompt");
        reveal_strlit("prompt ");
        reveal_strlit("log");
        reveal_strlit("exit");
        reveal_strlit("reboot");
    }
    if t.len() == 0 {
        return ShellCommand::Nothing;
    }
    if bytes::same_bytes(t, bytes::lit("help")) {
        return ShellCommand::Help;
    }
    if bytes::same_bytes(t, bytes::lit("clear")) {
        return ShellCommand::Clear;
    }
    if bytes::same_bytes(t, bytes::lit("reset")) {
        return ShellCommand::Reset;
    }
    if bytes::same_bytes(t, bytes::lit("erase memory")) {
        return ShellCommand::EraseMemory;
    }
    match parse_forget(t) {
        Some(p) => {
            return ShellCommand::Forget(p);
        },
        None => {},
    }
    if bytes::same_bytes(t, bytes::lit("prompt")) {
        return ShellCommand::EnterPrompt;
    }
    match copy_after(t, bytes::lit("prompt ")) {
        Some(p) => {
            return ShellCommand::Ask(p);
        },
        None => {},
    }
    if bytes::same_bytes(t, bytes::lit("log")) {
        return ShellCommand::Log;
    }
    if bytes::same_bytes(t, bytes::lit("exit")) {
        return ShellCommand::Exit;
    }
    if bytes::same_bytes(t, bytes::lit("reboot")) {
        return ShellCommand::Reboot;
    }
    ShellCommand::Unknown(bytes::to_vec(t))
}

/// Reads a line typed in prompt mode.
pub fn parse_prompt_command(t: &[u8]) -> (r: ShellCommand)
    ensures
        r@ == prompt_command_of(t@),
{
    proof {
        reveal_strlit("cancel");
        reveal_strlit("exit");
        reveal_strlit("reboot");
        reveal_strlit("erase memory");
        reveal_strlit("clear");
    }
    if bytes::same_bytes(t, bytes::lit("cancel")) {
        return ShellCommand::Cancel;
    }
    if bytes::same_bytes(t, bytes::lit("exit")) {
        return ShellCommand::Exit;
    }
    if bytes::same_bytes(t, bytes::lit("reboot")) {
        return ShellCommand::Reboot;
    }
    if bytes::same_bytes(t, bytes::lit("erase memory")) {
        return ShellCommand::EraseMemory;
    }
    match parse_forget(t) {
        Some(p) => {
            return ShellCommand::Forget(p);
        },
        None => {},
    }
    if bytes::same_bytes(t, bytes::lit("clear")) {
        return ShellCommand::Clear;
    }
    ShellCommand::Ask(bytes::to_vec(t))
}

/// What the shell waits for.
#[derive(Clone, Copy, PartialEq, Eq, Structural)]
pub enum Pending {
    /// The next typed byte.
    Typing,
    /// What the model generates.
    Model,
    /// The outcome of storing the session.
    Store { reboot: bool },
    /// The outcome of erasing what is stored.
    Erase,
    /// The length of the console log.
    LogLength { command: LogCommand },
    /// A page of the console log.
    LogPage { offset: usize, log_len: usize },
    /// Nothing: the machine restarts.
    Restart,
}

/// What the shell asks for.
pub enum ShellRequest {
    /// The next typed byte.
    Input,
    /// Run the model on this NUL-terminated prompt.
    RunModel { prompt: Vec<u8> },
    /// Append these bytes to the memory database.
    Store { data: Vec<u8> },
    /// Erase the memory database.
    EraseStore,
    /// The length of the console log.
    LogLength,
    /// As many bytes of the console log, from `offset` on, as a page holds.
    LogPage { offset: usize },
    /// Restart the machine.
    Reboot,
}

/// What the shell asks for, over byte strings.
pub enum Request {
    Input,
    RunModel { prompt: Seq<u8> },
    Store { data: Seq<u8> },
    EraseStore,
    LogLength,
    LogPage { offset: int },
    Reboot,
}

impl View for ShellRequest {
    type V = Request;

    open spec fn view(&self) -> Request {
        match self {
            ShellRequest::Input => Request::Input,
            ShellRequest::RunModel { prompt } => Request::RunModel { prompt: prompt@ },
            ShellRequest::Store { data } => Request::Store { data: data@ },
            ShellRequest::EraseStore => Request::EraseStore,
            ShellRequest::LogLength => Request::LogLength,
            ShellRequest::LogPage { offset } => Request::LogPage { offset: *offset as int },
            ShellRequest::Reboot => Request::Reboot,
        }
    }
}

/// What to do next: print the output, perhaps switch log capture, print the prompt, if there
/// is one, then serve the request.
pub struct ShellTurn {
    pub output: Vec<u8>,
    pub capture: Option<bool>,
    pub prompt: Vec<u8>,
    pub request: ShellRequest,
}

/// What to do next, over byte strings.
pub struct Turn {
    pub output: Seq<u8>,
    pub capture: Option<bool>,
    pub prompt: Seq<u8>,
    pub request: Request,
}

impl View for ShellTurn {
    type V = Turn;

    open spec fn view(&self) -> Turn {
        Turn {
            output: self.output@,
            capture: self.capture,
            prompt: self.prompt@,
            request: self.request@,
        }
    }
}

/// The shell's state.
pub struct RamShell {
    pub line: Vec<u8>,
    pub mode: RamShellMode,
    pub log_offset: usize,
    pub session_delta: Vec<u8>,
    pub history: Vec<QaRecord>,
    pub question: Vec<u8>,
    pub pending: Pending,
}

/// The shell's state over byte strings.
pub struct Shell {
    pub line: Seq<u8>,
    pub mode: RamShellMode,
    pub log_offset: int,
    pub delta: Seq<u8>,
    pub history: Seq<Qa>,
    pub question: Seq<u8>,
    pub pending: Pending,
}

impl View for RamShell {
    type V = Shell;

    open spec fn view(&self) -> Shell {
        Shell {
            line: self.line@,
            mode: self.mode,
            log_offset: self.log_offset as int,
            delta: self.session_delta@,
            history: history::qas(self.history@),
            question: self.question@,
            pending: self.pending,
        }
    }
}

impl Shell {
    /// The line holds printable bytes and fits; a page that is waited for lies in the log.
    pub open spec fn wf(self) -> bool {
        &&& self.line.len() < answer::RAM_SHELL_LINE_LEN
        &&& forall|i: int| 0 <= i < self.line.len() ==> 0x20 <= #[trigger] self.line[i] <= 0x7e
        &&& self.pending matches Pending::LogPage { offset, log_len } ==> offset
            <= log_view::last_page(log_len as int)
    }
}

/// What is printed when a line is waited for.
pub open spec fn prompt_of(mode: RamShellMode) -> Seq<u8> {
    match mode {
        RamShellMode::Command => bytes::ascii("ram> "@),
        RamShellMode::Prompt => bytes::ascii("model> "@),
        RamShellMode::Log => bytes::ascii("log> "@),
    }
}

/// What `help` prints in command mode.
pub open spec fn help_text() -> Seq<u8> {
    bytes::ascii("commands: clear, reset, prompt, log, forget, erase, exit, reboot\n"@)
        + bytes::ascii("prompt: enter prompt mode; prompt <text>: run immediately\n"@)
        + bytes::ascii("log: open captured console log; use pgup/pgdn/top/bottom/exit\n"@)
}

/// What `help` prints while the log is open.
pub open spec fn log_help_text() -> Seq<u8> {
    bytes::ascii("commands: pgup, pgdn, top, bottom, refresh, help, exit\n"@) + bytes::ascii(
        "enter/pgdn: newer page; pgup: older page; exit: return to ram shell\n"@,
    )
}

/// `n` line feeds.
pub open spec fn line_feeds(n: int) -> Seq<u8> {
    Seq::new(n as nat, |i: int| 0x0au8)
}

/// The text of an integer.
pub open spec fn integer_text(v: int) -> Seq<u8> {
    if v < 0 {
        seq![0x2du8] + codec::decimal((-v) as nat)
    } else {
        codec::decimal(v as nat)
    }
}

/// `text`, an integer and a line feed, where the integer is negative; else nothing.
pub open spec fn failure_text(text: Seq<u8>, ret: int) -> Seq<u8> {
    if ret < 0 {
        text + integer_text(ret) + seq![0x0au8]
    } else {
        Seq::empty()
    }
}

/// Prints, and waits for a line.
pub open spec fn ask(s: Shell, output: Seq<u8>, capture: Option<bool>) -> (Shell, Turn) {
    (
        Shell { line: Seq::empty(), pending: Pending::Typing, ..s },
        Turn { output, capture, prompt: prompt_of(s.mode), request: Request::Input },
    )
}

/// Hands a text to the model, if it is one that can be handed over.
pub open spec fn run_model(s: Shell, typed: Seq<u8>) -> (Shell, Turn) {
    let t = text::stripped(typed);
    if t.len() == 0 {
        ask(s, seq![0x0au8] + bytes::ascii("bitapp: prompt is empty\n"@), None)
    } else if t.len() >= answer::PROMPT_BUF_LEN {
        ask(s, seq![0x0au8] + bytes::ascii("bitapp: prompt buffer is full\n"@), None)
    } else {
        (
            Shell { line: Seq::empty(), question: t, pending: Pending::Model, ..s },
            Turn {
                output: seq![0x0au8],
                capture: None,
                prompt: Seq::empty(),
                request: Request::RunModel { prompt: answer::prompt_buffer(t) },
            },
        )
    }
}

/// Stores what this session added, if anything.
pub open spec fn store(s: Shell, reboot: bool) -> (Shell, Turn) {
    if s.delta.len() > 0 {
        (
            Shell { line: Seq::empty(), pending: Pending::Store { reboot }, ..s },
            Turn {
                output: seq![0x0au8],
                capture: None,
                prompt: Seq::empty(),
                request: Request::Store { data: s.delta },
            },
        )
    } else if reboot {
        (
            Shell { line: Seq::empty(), pending: Pending::Restart, ..s },
            Turn {
                output: seq![0x0au8],
                capture: None,
                prompt: Seq::empty(),
                request: Request::Reboot,
            },
        )
    } else {
        ask(s, seq![0x0au8], None)
    }
}

/// What a request to forget does.
pub open spec fn forget(s: Shell, phrase: Seq<u8>) -> Shell {
    if text::trimmed(phrase).len() == 0 {
        s
    } else {
        let key = codec::forget_key(phrase);
        Shell {
            history: history::forgotten(s.history, key),
            delta: codec::with_entry(
                history::shrunk_bytes(s.delta, key.len() + 64int),
                Entry::Forget(key),
            ),
            ..s
        }
    }
}

/// What an answered question does.
pub open spec fn remember(s: Shell, qa: Qa) -> Shell {
    let needed = qa.question.len() + qa.answer.len() + 64int;
    Shell {
        history: history::upserted(history::shrunk(s.history, needed), qa),
        delta: codec::with_entry(history::shrunk_bytes(s.delta, needed), Entry::Remember(qa)),
        ..s
    }
}

/// What a command does.
pub open spec fn on_command(s: Shell, c: Command) -> (Shell, Turn) {
    let feed = seq![0x0au8];
    match c {
        Command::Nothing => ask(s, feed, None),
        Command::Help => ask(s, feed + help_text(), None),
        Command::Clear => ask(s, feed + line_feeds(40), None),
        Command::Reset => ask(
            Shell { history: Seq::empty(), delta: Seq::empty(), ..s },
            feed,
            None,
        ),
        Command::EraseMemory => (
            Shell {
                line: Seq::empty(),
                history: Seq::empty(),
                delta: Seq::empty(),
                pending: Pending::Erase,
                ..s
            },
            Turn {
                output: feed,
                capture: None,
                prompt: Seq::empty(),
                request: Request::EraseStore,
            },
        ),
        Command::Forget(phrase) => ask(forget(s, phrase), feed, None),
        Command::EnterPrompt => ask(Shell { mode: RamShellMode::Prompt, ..s }, feed, None),
        Command::Ask(typed) => run_model(Shell { mode: RamShellMode::Prompt, ..s }, typed),
        Command::Log => (
            Shell {
                line: Seq::empty(),
                mode: RamShellMode::Log,
                pending: Pending::LogLength { command: LogCommand::Bottom },
                ..s
            },
            Turn {
                output: feed,
                capture: Some(false),
                prompt: Seq::empty(),
                request: Request::LogLength,
            },
        ),
        Command::Exit => store(Shell { mode: RamShellMode::Command, ..s }, false),
        Command::Reboot => store(s, true),
        Command::Cancel => ask(s, feed + bytes::ascii("bitapp: prompt cancelled\n"@), None),
        Command::Unknown(t) => ask(s, feed + bytes::ascii("ram: "@) + t + feed, None),
    }
}

/// What a command does while the log is open.
pub open spec fn on_log_command(s: Shell, c: LogCommand) -> (Shell, Turn) {
    let feed = seq![0x0au8];
    match c {
        LogCommand::Leave => ask(Shell { mode: RamShellMode::Command, ..s }, feed, Some(true)),
        LogCommand::Help => ask(s, feed + log_help_text(), None),
        _ => (
            Shell { line: Seq::empty(), pending: Pending::LogLength { command: c }, ..s },
            Turn { output: feed, capture: None, prompt: Seq::empty(), request: Request::LogLength },
        ),
    }
}

/// What the end of a line does.
pub open spec fn on_line(s: Shell) -> (Shell, Turn) {
    let t = text::stripped(s.line);
    match s.mode {
        RamShellMode::Command => on_command(s, command_of(t)),
        RamShellMode::Prompt => on_command(s, prompt_command_of(t)),
        RamShellMode::Log => on_log_command(s, log_view::log_command_of(t)),
    }
}

/// Prints, and waits for the next byte of the line.
pub open spec fn echo(s: Shell, output: Seq<u8>) -> (Shell, Turn) {
    (s, Turn { output, capture: None, prompt: Seq::empty(), request: Request::Input })
}

/// What a typed byte does.
pub open spec fn on_byte(s: Shell, ch: u8) -> (Shell, Turn) {
    if ch == 3 {
        ask(
            Shell { mode: RamShellMode::Command, ..s },
            bytes::ascii("^C\n"@),
            if s.mode == RamShellMode::Log {
                Some(true)
            } else {
                None
            },
        )
    } else if ch == 0x0d || ch == 0x0a {
        on_line(s)
    } else if (ch == 8 || ch == 127) && s.line.len() > 0 {
        echo(Shell { line: s.line.drop_last(), ..s }, seq![8u8, 0x20u8, 8u8])
    } else if 0x20 <= ch <= 0x7e && s.line.len() + 1 < answer::RAM_SHELL_LINE_LEN {
        echo(Shell { line: s.line.push(ch), ..s }, seq![ch])
    } else {
        echo(s, Seq::empty())
    }
}

/// What the model's outcome does.
pub open spec fn on_generated(s: Shell, aborted: bool, ret: i32, generated: Seq<u8>) -> (
    Shell,
    Turn,
) {
    if aborted {
        ask(s, bytes::ascii("bitapp: RAM_SHELL prompt stopped by Ctrl-C\n"@), None)
    } else if ret == 0 {
        let a = answer::answer_of(answer::c_string(generated));
        ask(
            remember(s, Qa { question: s.question, answer: a }),
            if a.len() > 0 && a.last() == 0x0a {
                a
            } else {
                a.push(0x0a)
            },
            None,
        )
    } else {
        ask(s, Seq::empty(), None)
    }
}

/// What the outcome of storing the session does.
pub open spec fn on_stored(s: Shell, ret: i32, reboot: bool) -> (Shell, Turn) {
    let output = failure_text(
        bytes::ascii(
            "bitapp: RAM_SHELL failed to persist session delta to SSD memory DB: "@,
        ),
        ret as int,
    );
    let s1 = if ret < 0 {
        s
    } else {
        Shell { delta: Seq::empty(), ..s }
    };
    if reboot {
        (
            Shell { pending: Pending::Restart, ..s1 },
            Turn { output, capture: None, prompt: Seq::empty(), request: Request::Reboot },
        )
    } else {
        ask(s1, output, None)
    }
}

/// What the outcome of erasing what is stored does.
pub open spec fn on_erased(s: Shell, ret: i32) -> (Shell, Turn) {
    ask(
        s,
        failure_text(
            bytes::ascii("bitapp: RAM_SHELL failed to erase SSD memory DB: "@),
            ret as int,
        ),
        None,
    )
}

/// What the length of the console log does.
pub open spec fn on_log_length(s: Shell, command: LogCommand, log_len: usize) -> (Shell, Turn) {
    let offset = log_view::page_after(command, s.log_offset, log_len as int);
    (
        Shell {
            log_offset: offset,
            pending: Pending::LogPage { offset: offset as usize, log_len },
            ..s
        },
        Turn {
            output: Seq::empty(),
            capture: None,
            prompt: Seq::empty(),
            request: Request::LogPage { offset },
        },
    )
}

/// What a page of the console log does.
pub open spec fn on_log_page(s: Shell, offset: usize, log_len: usize, page: Seq<u8>) -> (
    Shell,
    Turn,
) {
    ask(s, log_view::page_text(offset as int, log_len as int, page), None)
}

/// What the memory database gave at start, as a history.
pub open spec fn loaded(ret: i32, scratch: Seq<u8>) -> Seq<Qa> {
    if ret <= 0 {
        Seq::empty()
    } else {
        let n = if ret < scratch.len() {
            ret as int
        } else {
            scratch.len() as int
        };
        history::shrunk(codec::replayed(scratch.subrange(0, n), Seq::empty()), 0)
    }
}

/// Reads the history out of what the memory database gave: `ret` is its return value,
/// `scratch` the buffer that it filled.
pub fn load_memory_db_history(ret: i32, scratch: &[u8]) -> (r: Vec<QaRecord>)
    ensures
        history::qas(r@) == loaded(ret, scratch@),
{
    let mut found: Vec<QaRecord> = Vec::new();
    assert(history::qas(found@) =~= Seq::empty());
    if ret <= 0 {
        return found;
    }
    let count: u32 = ret as u32;
    let n: usize = if (count as u64) < scratch.len() as u64 {
        count as usize
    } else {
        scratch.len()
    };
    codec::parse_structured_qa_records(&scratch[0..n], &mut found);
    history::shrink_records(&mut found, 0);
    found
}

fn append_integer(out: &mut Vec<u8>, value: i32)
    ensures
        final(out)@ == old(out)@ + integer_text(value as int),
{
    let ghost before = out@;
    if value < 0 {
        out.push(0x2d);
        let magnitude: i64 = -(value as i64);
        codec::append_decimal(out, magnitude as usize);
    } else {
        codec::append_decimal(out, value as usize);
    }
    assert(out@ =~= before + integer_text(value as int));
}

fn clone_bytes(v: &Vec<u8>) -> (r: Vec<u8>)
    ensures
        r@ == v@,
{
    bytes::to_vec(v.as_slice())
}

fn feed_and(text: &'static str) -> (r: Vec<u8>)
    requires
        vstd::string::is_ascii(text),
    ensures
        r@ == seq![0x0au8] + bytes::ascii(text@),
{
    let mut out: Vec<u8> = vec![0x0a];
    out.extend_from_slice(bytes::lit(text));
    assert(out@ =~= seq![0x0au8] + bytes::ascii(text@));
    out
}

fn feed() -> (r: Vec<u8>)
    ensures
        r@ == seq![0x0au8],
{
    let out: Vec<u8> = vec![0x0a];
    assert(out@ =~= seq![0x0au8]);
    out
}

impl RamShell {
    /// A shell with what was remembered before, and what it prints first.
    pub fn new(history: Vec<QaRecord>) -> (r: (RamShell, Vec<u8>))
        ensures
            r.0@ == (Shell {
                line: Seq::empty(),
                mode: RamShellMode::Command,
                log_offset: 0,
                delta: Seq::empty(),
                history: history::qas(history@),
                question: Seq::empty(),
                pending: Pending::Typing,
            }),
            r.0@.wf(),
            r.1@ == prompt_of(RamShellMode::Command),
    {
        proof {
            reveal_strlit("ram> ");
        }
        let shell = RamShell {
            line: Vec::new(),
            mode: RamShellMode::Command,
            log_offset: 0,
            session_delta: Vec::new(),
            history,
            question: Vec::new(),
            pending: Pending::Typing,
        };
        (shell, bytes::to_vec(bytes::lit("ram> ")))
    }

    fn ask(&mut self, output: Vec<u8>, capture: Option<bool>) -> (turn: ShellTurn)
        ensures
            (final(self)@, turn@) == ask(old(self)@, output@, capture),
    {
        proof {
            reveal_strlit("ram> ");
            reveal_strlit("model> ");
            reveal_strlit("log> ");
        }
        self.line.clear();
        self.pending = Pending::Typing;
        let prompt = match self.mode {
            RamShellMode::Command => bytes::to_vec(bytes::lit("ram> ")),
            RamShellMode::Prompt => bytes::to_vec(bytes::lit("model> ")),
            RamShellMode::Log => bytes::to_vec(bytes::lit("log> ")),
        };
        assert(self.line@ =~= Seq::empty());
        ShellTurn { output, capture, prompt, request: ShellRequest::Input }
    }

    fn run_model(&mut self, typed: &[u8]) -> (turn: ShellTurn)
        ensures
            (final(self)@, turn@) == run_model(old(self)@, typed@),
    {
        match answer::check_prompt(typed) {
            PromptCheck::Empty => {
                proof {
                    reveal_strlit("bitapp: prompt is empty\n");
                }
                self.ask(feed_and("bitapp: prompt is empty\n"), None)
            },
            PromptCheck::TooLong => {
                proof {
                    reveal_strlit("bitapp: prompt buffer is full\n");
                }
                self.ask(feed_and("bitapp: prompt buffer is full\n"), None)
            },
            PromptCheck::Ready(prompt) => {
                self.line.clear();
                self.question = bytes::to_vec(text::trim(typed));
                self.pending = Pending::Model;
                ShellTurn {
                    output: feed(),
                    capture: None,
                    prompt: Vec::new(),
                    request: ShellRequest::RunModel { prompt },
                }
            },
        }
    }

    fn store(&mut self, reboot: bool) -> (turn: ShellTurn)
        ensures
            (final(self)@, turn@) == store(old(self)@, reboot),
    {
        if self.session_delta.len() > 0 {
            self.line.clear();
            self.pending = Pending::Store { reboot };
            let data = clone_bytes(&self.session_delta);
            ShellTurn {
                output: feed(),
                capture: None,
                prompt: Vec::new(),
                request: ShellRequest::Store { data },
            }
        } else if reboot {
            self.line.clear();
            self.pending = Pending::Restart;
            ShellTurn {
                output: feed(),
                capture: None,
                prompt: Vec::new(),
                request: ShellRequest::Reboot,
            }
        } else {
            self.ask(feed(), None)
        }
    }

    fn on_command(&mut self, command: ShellCommand) -> (turn: ShellTurn)
        ensures
            (final(self)@, turn@) == on_command(old(self)@, command@),
    {
        match command {
            ShellCommand::Nothing => self.ask(feed(), None),
            ShellCommand::Help => {
                proof {
                    reveal_strlit(
                        "commands: clear, reset, prompt, log, forget, erase, exit, reboot\n",
                    );
                    reveal_strlit("prompt: enter prompt mode; prompt <text>: run immediately\n");
                    reveal_strlit(
                        "log: open captured console log; use pgup/pgdn/top/bottom/exit\n",
                    );
                }
                let mut output = feed_and(
                    "commands: clear, reset, prompt, log, forget, erase, exit, reboot\n",
                );
                output.extend_from_slice(
                    bytes::lit("prompt: enter prompt mode; prompt <text>: run immediately\n"),
                );
                output.extend_from_slice(
                    bytes::lit("log: open captured console log; use pgup/pgdn/top/bottom/exit\n"),
                );
                assert(output@ =~= seq![0x0au8] + help_text());
                self.ask(output, None)
            },
            ShellCommand::Clear => {
                let mut output: Vec<u8> = Vec::new();
                output.resize(41, 0x0a);
                assert(output@ =~= seq![0x0au8] + line_feeds(40));
                self.ask(output, None)
            },
            ShellCommand::Reset => {
                self.history.clear();
                self.session_delta.clear();
                assert(history::qas(self.history@) =~= Seq::empty());
                self.ask(feed(), None)
            },
            ShellCommand::EraseMemory => {
                self.line.clear();
                self.history.clear();
                self.session_delta.clear();
                self.pending = Pending::Erase;
                assert(history::qas(self.history@) =~= Seq::empty());
                ShellTurn {
                    output: feed(),
                    capture: None,
                    prompt: Vec::new(),
                    request: ShellRequest::EraseStore,
                }
            },
            ShellCommand::Forget(phrase) => {
                let _ = codec::append_forget_to_history(
                    &mut self.history,
                    &mut self.session_delta,
                    phrase.as_slice(),
                );
                self.ask(feed(), None)
            },
            ShellCommand::EnterPrompt => {
                self.mode = RamShellMode::Prompt;
                self.ask(feed(), None)
            },
            ShellCommand::Ask(typed) => {
                self.mode = RamShellMode::Prompt;
                self.run_model(typed.as_slice())
            },
            ShellCommand::Log => {
                self.line.clear();
                self.mode = RamShellMode::Log;
                self.pending = Pending::LogLength { command: LogCommand::Bottom };
                ShellTurn {
                    output: feed(),
                    capture: Some(false),
                    prompt: Vec::new(),
                    request: ShellRequest::LogLength,
                }
            },
            ShellCommand::Exit => {
                self.mode = RamShellMode::Command;
                self.store(false)
            },
            ShellCommand::Reboot => self.store(true),
            ShellCommand::Cancel => {
                proof {
                    reveal_strlit("bitapp: prompt cancelled\n");
                }
                self.ask(feed_and("bitapp: prompt cancelled\n"), None)
            },
            ShellCommand::Unknown(t) => {
                proof {
                    reveal_strlit("ram: ");
                }
                let mut output = feed_and("ram: ");
                output.extend_from_slice(t.as_slice());
                output.push(0x0a);
                assert(output@ =~= seq![0x0au8] + bytes::ascii("ram: "@) + t@ + seq![0x0au8]);
                self.ask(output, None)
            },
        }
    }

    fn on_log_command(&mut self, command: LogCommand) -> (turn: ShellTurn)
        ensures
            (final(self)@, turn@) == on_log_command(old(self)@, command),
    {
        match command {
            LogCommand::Leave => {
                self.mode = RamShellMode::Command;
                self.ask(feed(), Some(true))
            },
            LogCommand::Help => {
                proof {
                    reveal_strlit("commands: pgup, pgdn, top, bottom, refresh, help, exit\n");
                    reveal_strlit(
                        "enter/pgdn: newer page; pgup: older page; exit: return to ram shell\n",
                    );
                }
                let mut output = feed_and(
                    "commands: pgup, pgdn, top, bottom, refresh, help, exit\n",
                );
                output.extend_from_slice(
                    bytes::lit(
                        "enter/pgdn: newer page; pgup: older page; exit: return to ram shell\n",
                    ),
                );
                assert(output@ =~= seq![0x0au8] + log_help_text());
                self.ask(output, None)
            },
            _ => {
                self.line.clear();
                self.pending = Pending::LogLength { command };
                ShellTurn {
                    output: feed(),
                    capture: None,
                    prompt: Vec::new(),
                    request: ShellRequest::LogLength,
                }
            },
        }
    }

    fn on_line(&mut self) -> (turn: ShellTurn)
        ensures
            (final(self)@, turn@) == on_line(old(self)@),
    {
        match self.mode {
            RamShellMode::Command => {
                let command = parse_command(text::trim(self.line.as_slice()));
                self.on_command(command)
            },
            RamShellMode::Prompt => {
                let command = parse_prompt_command(text::trim(self.line.as_slice()));
                self.on_command(command)
            },
            RamShellMode::Log => {
                let command = log_view::parse_log_command(text::trim(self.line.as_slice()));
                self.on_log_command(command)
            },
        }
    }

    /// Takes a typed byte.
    pub fn on_byte(&mut self, ch: u8) -> (turn: ShellTurn)
        requires
            old(self)@.wf(),
            old(self)@.pending == Pending::Typing,
        ensures
            (final(self)@, turn@) == on_byte(old(self)@, ch),
            final(self)@.wf(),
    {
        if ch == 3 {
            proof {
                reveal_strlit("^C\n");
            }
            let capture = match self.mode {
                RamShellMode::Log => Some(true),
                _ => None,
            };
            self.mode = RamShellMode::Command;
            return self.ask(bytes::to_vec(bytes::lit("^C\n")), capture);
        }
        if ch == 0x0d || ch == 0x0a {
            return self.on_line();
        }
        let mut output: Vec<u8> = Vec::new();
        if ch == 8 || ch == 127 {
            if self.line.len() > 0 {
                let _ = self.line.pop();
                output.push(8);
                output.push(0x20);
                output.push(8);
                assert(output@ =~= seq![8u8, 0x20u8, 8u8]);
            }
        } else if 0x20 <= ch && ch <= 0x7e && self.line.len() + 1 < answer::RAM_SHELL_LINE_LEN {
            self.line.push(ch);
            output.push(ch);
            assert(output@ =~= seq![ch]);
        }
        ShellTurn { output, capture: None, prompt: Vec::new(), request: ShellRequest::Input }
    }

    /// Takes what the model did: whether Ctrl-C stopped it, its return value and the
    /// buffer that it generated into.
    pub fn on_generated(&mut self, aborted: bool, ret: i32, generated: &[u8]) -> (turn: ShellTurn)
        requires
            old(self)@.wf(),
            old(self)@.pending == Pending::Model,
        ensures
            (final(self)@, turn@) == on_generated(old(self)@, aborted, ret, generated@),
            final(self)@.wf(),
    {
        if aborted {
            proof {
                reveal_strlit("bitapp: RAM_SHELL prompt stopped by Ctrl-C\n");
            }
            let output = bytes::to_vec(
                bytes::lit("bitapp: RAM_SHELL prompt stopped by Ctrl-C\n"),
            );
            return self.ask(output, None);
        }
        if ret != 0 {
            return self.ask(Vec::new(), None);
        }
        let len: usize = answer::c_string_len(generated);
        let a = answer::ram_shell_answer_bytes(&generated[0..len]);
        let mut output = bytes::to_vec(a);
        if !(a.len() > 0 && a[a.len() - 1] == 0x0a) {
            output.push(0x0a);
        }
        codec::append_to_history(
            &mut self.history,
            &mut self.session_delta,
            self.question.as_slice(),
            a,
        );
        self.ask(output, None)
    }

    /// Takes the return value of storing the session.
    pub fn on_stored(&mut self, ret: i32) -> (turn: ShellTurn)
        requires
            old(self)@.wf(),
            old(self)@.pending is Store,
        ensures
            (final(self)@, turn@) == on_stored(old(self)@, ret, old(self)@.pending->reboot),
            final(self)@.wf(),
    {
        let reboot = match self.pending {
            Pending::Store { reboot } => reboot,
            _ => false,
        };
        let mut output: Vec<u8> = Vec::new();
        if ret < 0 {
            proof {
                reveal_strlit(
                    "bitapp: RAM_SHELL failed to persist session delta to SSD memory DB: ",
                );
            }
            output.extend_from_slice(
                bytes::lit("bitapp: RAM_SHELL failed to persist session delta to SSD memory DB: "),
            );
            append_integer(&mut output, ret);
            output.push(0x0a);
        } else {
            self.session_delta.clear();
        }
        assert(output@ =~= failure_text(
            bytes::ascii(
                "bitapp: RAM_SHELL failed to persist session delta to SSD memory DB: "@,
            ),
            ret as int,
        ));
        if reboot {
            self.pending = Pending::Restart;
            ShellTurn { output, capture: None, prompt: Vec::new(), request: ShellRequest::Reboot }
        } else {
            self.ask(output, None)
        }
    }

    /// Takes the return value of erasing what is stored.
    pub fn on_erased(&mut self, ret: i32) -> (turn: ShellTurn)
        requires
            old(self)@.wf(),
            old(self)@.pending == Pending::Erase,
        ensures
            (final(self)@, turn@) == on_erased(old(self)@, ret),
            final(self)@.wf(),
    {
        let mut output: Vec<u8> = Vec::new();
        if ret < 0 {
            proof {
                reveal_strlit("bitapp: RAM_SHELL failed to erase SSD memory DB: ");
            }
            output.extend_from_slice(
                bytes::lit("bitapp: RAM_SHELL failed to erase SSD memory DB: "),
            );
            append_integer(&mut output, ret);
            output.push(0x0a);
        }
        assert(output@ =~= failure_text(
            bytes::ascii("bitapp: RAM_SHELL failed to erase SSD memory DB: "@),
            ret as int,
        ));
        self.ask(output, None)
    }

    /// Takes the length of the console log.
    pub fn on_log_length(&mut self, log_len: usize) -> (turn: ShellTurn)
        requires
            old(self)@.wf(),
            old(self)@.pending is LogLength,
        ensures
            (final(self)@, turn@) == on_log_length(
                old(self)@,
                old(self)@.pending->command,
                log_len,
            ),
            final(self)@.wf(),
    {
        let command = match self.pending {
            Pending::LogLength { command } => command,
            _ => LogCommand::Refresh,
        };
        let offset: usize = log_view::turn_page(command, self.log_offset, log_len);
        proof {
            log_view::law_pages_stay_inside(command, self.log_offset as int, log_len as int);
        }
        self.log_offset = offset;
        self.pending = Pending::LogPage { offset, log_len };
        ShellTurn {
            output: Vec::new(),
            capture: None,
            prompt: Vec::new(),
            request: ShellRequest::LogPage { offset },
        }
    }

    /// Takes a page of the console log.
    pub fn on_log_page(&mut self, page: &[u8]) -> (turn: ShellTurn)
        requires
            old(self)@.wf(),
            old(self)@.pending is LogPage,
            page.len() <= log_view::RAM_SHELL_LOG_PAGE_BYTES,
        ensures
            (final(self)@, turn@) == on_log_page(
                old(self)@,
                old(self)@.pending->offset,
                old(self)@.pending->log_len,
                page@,
            ),
            final(self)@.wf(),
    {
        let (offset, log_len): (usize, usize) = match self.pending {
            Pending::LogPage { offset, log_len } => (offset, log_len),
            _ => (0, 0),
        };
        let output = log_view::render_console_log_page(offset, log_len, page);
        self.ask(output, None)
    }
}

/// The log of the session holds `es`, and reading it on top of `base` gives the history.
pub open spec fn log_matches(s: Shell, base: Seq<Qa>, es: Seq<(bool, Entry)>) -> bool {
    &&& s.delta == replay::stored(es)
    &&& s.history == codec::replayed(s.delta, base)
}

/// As long as nothing has to be dropped for room, the log of the session, read after a
/// restart on top of what the session started with, gives the history that the session
/// had: answered questions are in both.
pub proof fn law_remembered_is_stored(
    s: Shell,
    base: Seq<Qa>,
    es: Seq<(bool, Entry)>,
    qa: Qa,
)
    requires
        log_matches(s, base, es),
        history::total_payload(s.history) + qa.question.len() + qa.answer.len() + 64
            <= history::RAM_SHELL_HISTORY_CAP_BYTES,
        s.delta.len() + qa.question.len() + qa.answer.len() + 64
            <= history::RAM_SHELL_HISTORY_CAP_BYTES,
        codec::with_entry(s.delta, Entry::Remember(qa)).len() <= usize::MAX,
    ensures
        log_matches(remember(s, qa), base, es.push((s.delta.len() > 0, Entry::Remember(qa)))),
{
    replay::law_replay_after_adding(es, Entry::Remember(qa), base);
}

/// As long as nothing has to be dropped for room, the log of the session, read after a
/// restart on top of what the session started with, gives the history that the session
/// had: forgotten records are in neither.
pub proof fn law_forgotten_is_stored(
    s: Shell,
    base: Seq<Qa>,
    es: Seq<(bool, Entry)>,
    phrase: Seq<u8>,
)
    requires
        log_matches(s, base, es),
        text::trimmed(phrase).len() > 0,
        s.delta.len() + codec::forget_key(phrase).len() + 64
            <= history::RAM_SHELL_HISTORY_CAP_BYTES,
        codec::with_entry(s.delta, Entry::Forget(codec::forget_key(phrase))).len() <= usize::MAX,
    ensures
        log_matches(
            forget(s, phrase),
            base,
            es.push((s.delta.len() > 0, Entry::Forget(codec::forget_key(phrase)))),
        ),
{
    replay::law_replay_after_adding(es, Entry::Forget(codec::forget_key(phrase)), base);
    replay::law_forget_key_is_trimmed(phrase);
}

proof fn lemma_shrunk_keeps_topics_unique(h: Seq<Qa>, needed: int)
    requires
        history::topics_unique(h),
    ensures
        history::topics_unique(history::shrunk(h, needed)),
{
    history::law_shrink_makes_room(h, needed);
    let r = history::shrunk(h, needed);
    let k = h.len() - r.len();
    assert forall|i: int, j: int|
        0 <= i < j < r.len() && #[trigger] history::qa_key(r[i]) is Some implies history::qa_key(
        r[i],
    ) != #[trigger] history::qa_key(r[j]) by {
        assert(r[i] == h[k + i] && r[j] == h[k + j]);
    }
}

/// Whatever is typed and whatever the model answers, no two remembered records are filed
/// under one topic.
pub proof fn law_session_keeps_topics_unique(
    s: Shell,
    ch: u8,
    aborted: bool,
    ret: i32,
    generated: Seq<u8>,
)
    requires
        history::topics_unique(s.history),
    ensures
        history::topics_unique(on_byte(s, ch).0.history),
        history::topics_unique(on_generated(s, aborted, ret, generated).0.history),
{
    let t = text::stripped(s.line);
    match forget_phrase(t) {
        Some(p) => {
            history::law_forget_keeps_topics_unique(s.history, codec::forget_key(p));
        },
        None => {},
    }
    let a = answer::answer_of(answer::c_string(generated));
    let qa = Qa { question: s.question, answer: a };
    let needed = qa.question.len() + qa.answer.len() + 64int;
    lemma_shrunk_keeps_topics_unique(s.history, needed);
    history::law_upsert_keeps_topics_unique(history::shrunk(s.history, needed), qa);
}

/// Log capture is switched off when the log is opened and on again when it is left, and
/// not touched otherwise.
pub proof fn law_capture_follows_mode(s: Shell, ch: u8)
    ensures
        ({
            let (next, turn) = on_byte(s, ch);
            turn.capture == if s.mode != RamShellMode::Log && next.mode == RamShellMode::Log {
                Some(false)
            } else if s.mode == RamShellMode::Log && next.mode != RamShellMode::Log {
                Some(true)
            } else {
                None::<bool>
            }
        }),
{
}

/// A session that could not be stored is kept, to be stored later; one that was stored is
/// not stored again.
pub proof fn law_failed_store_keeps_session(s: Shell, ret: i32, reboot: bool)
    ensures
        ret < 0 ==> on_stored(s, ret, reboot).0.delta == s.delta,
        ret >= 0 ==> on_stored(s, ret, reboot).0.delta.len() == 0,
        on_stored(s, ret, reboot).0.history == s.history,
{
}

} // verus!
