//! What the shell does with what is typed, word by word.

use vstd::prelude::*;

use crate::bytes;
use crate::shell::codec;
use crate::shell::codec::Entry;
use crate::shell::history;
use crate::shell::history::Qa;
use crate::shell::log_view;
use crate::shell::log_view::LogCommand;
use crate::shell::session;
use crate::shell::session::Command;
use crate::shell::session::Pending;
use crate::shell::session::RamShellMode;
use crate::shell::session::Request;
use crate::shell::session::Shell;
use crate::shell::session::Turn;
use crate::shell::text;

verus! {

/// The bytes of a text.
pub open spec fn says(t: Seq<u8>, s: Seq<char>) -> bool {
    t.len() == s.len() && forall|i: int| 0 <= i < s.len() ==> #[trigger] t[i] == s[i] as u8
}

/// `t` is the text `s` and then `rest`.
pub open spec fn says_then(t: Seq<u8>, s: Seq<char>, rest: Seq<u8>) -> bool {
    &&& t.len() == s.len() + rest.len()
    &&& forall|i: int| 0 <= i < s.len() ==> #[trigger] t[i] == s[i] as u8
    &&& forall|i: int| 0 <= i < rest.len() ==> #[trigger] t[s.len() + i] == rest[i]
}

/// `t` begins with the text `s`.
pub open spec fn begins(t: Seq<u8>, s: Seq<char>) -> bool {
    t.len() >= s.len() && forall|i: int| 0 <= i < s.len() ==> #[trigger] t[i] == s[i] as u8
}

proof fn lemma_says(t: Seq<u8>, s: Seq<char>)
    ensures
        says(t, s) == (t == bytes::ascii(s)),
{
    if says(t, s) {
        assert(t =~= bytes::ascii(s));
    }
}

proof fn lemma_rest(t: Seq<u8>, s: Seq<char>)
    ensures
        begins(t, s) == (session::rest_after(t, bytes::ascii(s)) is Some),
        session::rest_after(t, bytes::ascii(s)) matches Some(p) ==> says_then(t, s, p),
{
    let a = bytes::ascii(s);
    if begins(t, s) {
        assert(t.subrange(0, a.len() as int) =~= a);
    } else if t.len() >= s.len() && t.subrange(0, a.len() as int) == a {
        assert forall|i: int| 0 <= i < s.len() implies #[trigger] t[i] == s[i] as u8 by {
            assert(t.subrange(0, a.len() as int)[i] == a[i]);
        }
    }
    if let Some(p) = session::rest_after(t, a) {
        assert forall|i: int| 0 <= i < s.len() implies #[trigger] t[i] == s[i] as u8 by {
            assert(t.subrange(0, a.len() as int)[i] == a[i]);
        }
    }
}

/// Whether a line is one of the words that are commands of their own in command mode, or
/// begins as one that takes a text does.
pub open spec fn is_word(t: Seq<u8>) -> bool {
    says(t, "help"@) || says(t, "clear"@) || says(t, "reset"@) || says(t, "prompt"@) || says(
        t,
        "log"@,
    ) || says(t, "exit"@) || says(t, "reboot"@) || begins(t, "forget "@) || begins(t, "erase "@)
        || begins(t, "prompt "@)
}

/// In command mode a line is the command that it names, and no other.
pub proof fn law_lines_name_commands(t: Seq<u8>)
    ensures
        match session::command_of(t) {
            Command::Nothing => t.len() == 0,
            Command::Help => says(t, "help"@),
            Command::Clear => says(t, "clear"@),
            Command::Reset => says(t, "reset"@),
            Command::EraseMemory => says(t, "erase memory"@),
            Command::Forget(p) => says_then(t, "forget "@, p) || says_then(t, "erase "@, p)
                && !says(t, "erase memory"@),
            Command::EnterPrompt => says(t, "prompt"@),
            Command::Ask(p) => says_then(t, "prompt "@, p),
            Command::Log => says(t, "log"@),
            Command::Exit => says(t, "exit"@),
            Command::Reboot => says(t, "reboot"@),
            Command::Cancel => false,
            Command::Unknown(p) => p == t && t.len() > 0 && !is_word(t),
        },
{
    lemma_says(t, "help"@);
    lemma_says(t, "clear"@);
    lemma_says(t, "reset"@);
    lemma_says(t, "erase memory"@);
    lemma_says(t, "prompt"@);
    lemma_says(t, "log"@);
    lemma_says(t, "exit"@);
    lemma_says(t, "reboot"@);
    lemma_rest(t, "forget "@);
    lemma_rest(t, "erase "@);
    lemma_rest(t, "prompt "@);
}

/// In prompt mode every line is for the model but for a few commands.
pub proof fn law_lines_are_prompts(t: Seq<u8>)
    ensures
        match session::prompt_command_of(t) {
            Command::Clear => says(t, "clear"@),
            Command::EraseMemory => says(t, "erase memory"@),
            Command::Forget(p) => says_then(t, "forget "@, p) || says_then(t, "erase "@, p)
                && !says(t, "erase memory"@),
            Command::Ask(p) => p == t && !says(t, "cancel"@) && !says(t, "exit"@) && !says(
                t,
                "reboot"@,
            ) && !says(t, "clear"@) && !begins(t, "forget "@) && !begins(t, "erase "@),
            Command::Exit => says(t, "exit"@),
            Command::Reboot => says(t, "reboot"@),
            Command::Cancel => says(t, "cancel"@),
            _ => false,
        },
{
    reveal_strlit("erase memory");
    reveal_strlit("erase ");
    lemma_says(t, "cancel"@);
    lemma_says(t, "exit"@);
    lemma_says(t, "reboot"@);
    lemma_says(t, "erase memory"@);
    lemma_says(t, "clear"@);
    lemma_rest(t, "forget "@);
    lemma_rest(t, "erase "@);
}

/// Whether a line names a page of the log or what to do with it.
pub open spec fn is_log_word(t: Seq<u8>) -> bool {
    t.len() == 0 || says(t, "pgdn"@) || says(t, "next"@) || says(t, "down"@) || says(t, "pgup"@)
        || says(t, "prev"@) || says(t, "up"@) || says(t, "top"@) || says(t, "bottom"@) || says(
        t,
        "end"@,
    ) || says(t, "refresh"@) || says(t, "r"@) || says(t, "exit"@) || says(t, "quit"@) || says(
        t,
        "q"@,
    )
}

/// While the log is open a line names a page, or help is given.
pub proof fn law_lines_turn_pages(t: Seq<u8>)
    ensures
        match log_view::log_command_of(t) {
            LogCommand::Newer => t.len() == 0 || says(t, "pgdn"@) || says(t, "next"@) || says(
                t,
                "down"@,
            ),
            LogCommand::Older => says(t, "pgup"@) || says(t, "prev"@) || says(t, "up"@),
            LogCommand::Top => says(t, "top"@),
            LogCommand::Bottom => says(t, "bottom"@) || says(t, "end"@),
            LogCommand::Refresh => says(t, "refresh"@) || says(t, "r"@),
            LogCommand::Leave => says(t, "exit"@) || says(t, "quit"@) || says(t, "q"@),
            LogCommand::Help => !is_log_word(t),
        },
{
    lemma_says(t, "pgdn"@);
    lemma_says(t, "next"@);
    lemma_says(t, "down"@);
    lemma_says(t, "pgup"@);
    lemma_says(t, "prev"@);
    lemma_says(t, "up"@);
    lemma_says(t, "top"@);
    lemma_says(t, "bottom"@);
    lemma_says(t, "end"@);
    lemma_says(t, "refresh"@);
    lemma_says(t, "r"@);
    lemma_says(t, "exit"@);
    lemma_says(t, "quit"@);
    lemma_says(t, "q"@);
}

/// The page that is shown begins 1024 bytes before the end of the log at the latest, and turning
/// moves it by 1024 bytes, but not beyond the ends.
pub proof fn law_pages_are_turned(offset: int, len: int)
    requires
        0 <= offset,
        0 <= len,
    ensures
        ({
            let last: int = if len > 1024 {
                len - 1024
            } else {
                0
            };
            &&& log_view::page_after(LogCommand::Top, offset, len) == 0
            &&& log_view::page_after(LogCommand::Bottom, offset, len) == last
            &&& log_view::page_after(LogCommand::Newer, offset, len) == if offset + 1024 < last {
                offset + 1024
            } else {
                last
            }
            &&& log_view::page_after(LogCommand::Older, offset, len) == if offset < 1024 {
                0
            } else if offset - 1024 < last {
                offset - 1024
            } else {
                last
            }
            &&& log_view::page_after(LogCommand::Refresh, offset, len) == if offset < last {
                offset
            } else {
                last
            }
        }),
{
}

/// A page of the log is shown with its bytes in place: what can be printed as it is, the end of
/// a line as one, all else as a question mark.
pub proof fn law_log_bytes_are_shown(page: Seq<u8>, i: int)
    requires
        0 <= i < page.len(),
    ensures
        log_view::shown_all(page).len() == page.len(),
        log_view::shown_all(page)[i] == (if page[i] == 10 || page[i] == 9 || 32 <= page[i] < 127 {
            page[i] as int
        } else if page[i] == 13 {
            10
        } else {
            63
        }),
{
}

/// The page of a log that is not empty is headed by where it stands, and the screen is cleared.
pub proof fn law_page_has_its_place(offset: nat, len: nat, page: Seq<u8>) -> (d: (
    Seq<u8>,
    Seq<u8>,
    Seq<u8>,
))
    requires
        len > 0,
        page.len() > 0,
    ensures
        writes(d.0, offset) && writes(d.1, offset + page.len()) && writes(d.2, len),
        log_view::page_text(offset as int, len as int, page) == seq![12u8] + bytes::ascii(
            "console log bytes "@,
        ) + d.0 + bytes::ascii(".."@) + d.1 + bytes::ascii(" of "@) + d.2 + seq![10u8]
            + log_view::shown_all(page) + (if page.last() == 10 {
            Seq::empty()
        } else {
            seq![10u8]
        }) + bytes::ascii("-- pgup older | pgdn newer | top | bottom | refresh | exit --\n"@),
        log_view::page_text(offset as int, 0, page) == seq![12u8] + bytes::ascii(
            "console log is empty\n"@,
        ),
{
    lemma_writes(offset);
    lemma_writes(offset + page.len());
    lemma_writes(len);
    (codec::decimal(offset), codec::decimal(offset + page.len()), codec::decimal(len))
}

/// The number that decimal digits write.
pub open spec fn number(d: Seq<u8>) -> int
    decreases d.len(),
{
    if d.len() == 0 {
        0
    } else {
        number(d.drop_last()) * 10 + (d.last() - 48)
    }
}

/// Whether `d` writes a number in decimal, with no more digits than it takes.
pub open spec fn writes(d: Seq<u8>, n: nat) -> bool {
    &&& d.len() > 0
    &&& forall|i: int| 0 <= i < d.len() ==> 48 <= #[trigger] d[i] <= 57
    &&& number(d) == n
    &&& d.len() > 1 ==> d[0] != 48
}

/// Decimal digits write their number.
pub proof fn lemma_writes(n: nat)
    ensures
        writes(codec::decimal(n), n),
    decreases n,
{
    let d = codec::decimal(n);
    if n >= 10 {
        let p = codec::decimal(n / 10);
        lemma_writes(n / 10);
        assert(d.drop_last() =~= p);
        assert(number(d) == number(p) * 10 + n % 10);
        assert forall|i: int| 0 <= i < d.len() implies 48 <= #[trigger] d[i] <= 57 by {
            if i < p.len() {
                assert(d[i] == p[i]);
            }
        }
        assert(d[0] == p[0]);
        if p.len() == 1 {
            assert(p.drop_last() =~= Seq::empty());
            assert(number(p.drop_last()) == 0);
            assert(p.last() == p[0]);
        }
    } else {
        assert(d.drop_last() =~= Seq::empty());
        assert(number(d.drop_last()) == 0);
    }
}

/// What is stored of an answered question: a mark with the two lengths, then the question and
/// the answer, each on lines of their own; behind what was stored before, an empty line.
pub proof fn law_answers_are_stored_as_marked(log: Seq<u8>, qa: Qa) -> (d: (Seq<u8>, Seq<u8>))
    ensures
        writes(d.0, qa.question.len()) && writes(d.1, qa.answer.len()),
        codec::with_entry(log, Entry::Remember(qa)) == log + (if log.len() == 0 {
            Seq::empty()
        } else {
            seq![10u8]
        }) + (bytes::ascii("[RAMQA v1 q="@) + d.0 + bytes::ascii(" a="@) + d.1 + seq![93u8, 10u8]
            + qa.question + seq![10u8] + qa.answer + seq![10u8]),
{
    lemma_writes(qa.question.len());
    lemma_writes(qa.answer.len());
    (codec::decimal(qa.question.len()), codec::decimal(qa.answer.len()))
}

/// What is stored of a request to forget: a mark with the length of what to forget, and that.
pub proof fn law_requests_to_forget_are_stored_as_marked(log: Seq<u8>, key: Seq<u8>) -> (d: Seq<u8>)
    ensures
        writes(d, key.len()),
        codec::with_entry(log, Entry::Forget(key)) == log + (if log.len() == 0 {
            Seq::empty()
        } else {
            seq![10u8]
        }) + (bytes::ascii("[RAMDEL v1 k="@) + d + seq![93u8, 10u8] + key + seq![10u8]),
{
    lemma_writes(key.len());
    codec::decimal(key.len())
}

/// What is waited for when a line is.
pub open spec fn mode_prompt(mode: RamShellMode) -> Seq<char> {
    match mode {
        RamShellMode::Command => "ram> "@,
        RamShellMode::Prompt => "model> "@,
        RamShellMode::Log => "log> "@,
    }
}

/// The shell has printed `output` and waits for a new line in mode `mode`, and what it remembers
/// is as given.
pub open spec fn waits(
    r: (Shell, Turn),
    s: Shell,
    mode: RamShellMode,
    output: Seq<u8>,
    capture: Option<bool>,
    history: Seq<Qa>,
    delta: Seq<u8>,
) -> bool {
    &&& r.0.line.len() == 0
    &&& r.0.mode == mode
    &&& r.0.pending == Pending::Typing
    &&& r.0.history == history
    &&& r.0.delta == delta
    &&& r.0.log_offset == s.log_offset
    &&& r.1.output == output
    &&& r.1.capture == capture
    &&& says(r.1.prompt, mode_prompt(mode))
    &&& r.1.request == Request::Input
}

/// The shell has ended the line, and asks for something.
pub open spec fn requests(
    r: (Shell, Turn),
    s: Shell,
    mode: RamShellMode,
    pending: Pending,
    request: Request,
    capture: Option<bool>,
) -> bool {
    &&& r.0.line.len() == 0
    &&& r.0.mode == mode
    &&& r.0.pending == pending
    &&& r.0.log_offset == s.log_offset
    &&& r.1.output == seq![10u8]
    &&& r.1.capture == capture
    &&& r.1.prompt.len() == 0
    &&& r.1.request == request
}

/// Commands that only print change nothing that is remembered, and those that clear it clear
/// all of it.
pub proof fn law_commands_that_print(s: Shell, t: Seq<u8>)
    ensures
        waits(
            session::on_command(s, Command::Nothing),
            s,
            s.mode,
            seq![10u8],
            None,
            s.history,
            s.delta,
        ),
        waits(
            session::on_command(s, Command::Clear),
            s,
            s.mode,
            Seq::new(41, |i: int| 10u8),
            None,
            s.history,
            s.delta,
        ),
        waits(
            session::on_command(s, Command::Help),
            s,
            s.mode,
            seq![10u8] + (bytes::ascii(
                "commands: clear, reset, prompt, log, forget, erase, exit, reboot\n"@,
            ) + bytes::ascii("prompt: enter prompt mode; prompt <text>: run immediately\n"@)
                + bytes::ascii("log: open captured console log; use pgup/pgdn/top/bottom/exit\n"@)),
            None,
            s.history,
            s.delta,
        ),
        waits(
            session::on_command(s, Command::Cancel),
            s,
            s.mode,
            seq![10u8] + bytes::ascii("bitapp: prompt cancelled\n"@),
            None,
            s.history,
            s.delta,
        ),
        waits(
            session::on_command(s, Command::Unknown(t)),
            s,
            s.mode,
            seq![10u8] + bytes::ascii("ram: "@) + t + seq![10u8],
            None,
            s.history,
            s.delta,
        ),
        waits(
            session::on_command(s, Command::EnterPrompt),
            s,
            RamShellMode::Prompt,
            seq![10u8],
            None,
            s.history,
            s.delta,
        ),
        waits(
            session::on_command(s, Command::Reset),
            s,
            s.mode,
            seq![10u8],
            None,
            Seq::empty(),
            Seq::empty(),
        ),
{
    lemma_prompt(s.mode);
    lemma_prompt(RamShellMode::Prompt);
    assert(seq![10u8] + session::line_feeds(40) =~= Seq::new(41, |i: int| 10u8));
}

proof fn lemma_prompt(mode: RamShellMode)
    ensures
        says(session::prompt_of(mode), mode_prompt(mode)),
{
    lemma_says(session::prompt_of(mode), mode_prompt(mode));
}

/// Erasing, leaving, restarting and opening the log ask for just that: what this session added
/// is stored, all of it, before the shell is left or the machine restarts.
pub proof fn law_commands_that_request(s: Shell)
    ensures
        ({
            let r = session::on_command(s, Command::EraseMemory);
            &&& requests(r, s, s.mode, Pending::Erase, Request::EraseStore, None)
            &&& r.0.history.len() == 0 && r.0.delta.len() == 0
        }),
        ({
            let r = session::on_command(s, Command::Exit);
            let home = RamShellMode::Command;
            if s.delta.len() > 0 {
                &&& requests(
                    r,
                    s,
                    home,
                    Pending::Store { reboot: false },
                    Request::Store { data: s.delta },
                    None,
                )
                &&& r.0.history == s.history && r.0.delta == s.delta
            } else {
                waits(r, s, home, seq![10u8], None, s.history, s.delta)
            }
        }),
        ({
            let r = session::on_command(s, Command::Reboot);
            &&& r.0.history == s.history && r.0.delta == s.delta
            &&& if s.delta.len() > 0 {
                requests(
                    r,
                    s,
                    s.mode,
                    Pending::Store { reboot: true },
                    Request::Store { data: s.delta },
                    None,
                )
            } else {
                requests(r, s, s.mode, Pending::Restart, Request::Reboot, None)
            }
        }),
        ({
            let r = session::on_command(s, Command::Log);
            &&& requests(
                r,
                s,
                RamShellMode::Log,
                Pending::LogLength { command: LogCommand::Bottom },
                Request::LogLength,
                Some(false),
            )
            &&& r.0.history == s.history && r.0.delta == s.delta
        }),
{
    lemma_prompt(RamShellMode::Command);
}

/// A text goes to the model without the white space at its ends and with a zero behind it, and
/// is kept as the question; one that is blank or too long does not. From command mode on the
/// shell is then in prompt mode.
pub proof fn law_texts_go_to_the_model(s: Shell, typed: Seq<u8>)
    ensures
        ({
            let t = text::stripped(typed);
            let r = session::on_command(s, Command::Ask(typed));
            if t.len() == 0 {
                waits(
                    r,
                    s,
                    RamShellMode::Prompt,
                    seq![10u8] + bytes::ascii("bitapp: prompt is empty\n"@),
                    None,
                    s.history,
                    s.delta,
                )
            } else if t.len() > 256 {
                waits(
                    r,
                    s,
                    RamShellMode::Prompt,
                    seq![10u8] + bytes::ascii("bitapp: prompt buffer is full\n"@),
                    None,
                    s.history,
                    s.delta,
                )
            } else {
                &&& r.0.line.len() == 0 && r.0.mode == RamShellMode::Prompt
                &&& r.0.pending == Pending::Model && r.0.question == t
                &&& r.0.history == s.history && r.0.delta == s.delta
                &&& r.1.output == seq![10u8] && r.1.capture is None && r.1.prompt.len() == 0
                &&& r.1.request matches Request::RunModel { prompt } && prompt.len() > t.len()
                    && prompt.take(t.len() as int) == t && prompt[t.len() as int] == 0
            }
        }),
{
    lemma_prompt(RamShellMode::Prompt);
    let r = session::on_command(s, Command::Ask(typed));
    let t = text::stripped(typed);
    if let Request::RunModel { prompt } = r.1.request {
        assert(prompt.take(t.len() as int) =~= t);
    }
}

/// What the model generated is shown, on lines of its own, and remembered with its question;
/// nothing is where the model failed or was stopped.
pub proof fn law_answers_are_shown(s: Shell, ret: i32, generated: Seq<u8>, a: Seq<u8>)
    requires
        a == crate::shell::answer::answer_of(crate::shell::answer::c_string(generated)),
    ensures
        ({
            let r = session::on_generated(s, false, 0, generated);
            let qa = Qa { question: s.question, answer: a };
            let needed = s.question.len() + a.len() + 64int;
            waits(
                r,
                s,
                s.mode,
                if a.len() > 0 && a.last() == 10 {
                    a
                } else {
                    a + seq![10u8]
                },
                None,
                history::upserted(history::shrunk(s.history, needed), qa),
                codec::with_entry(history::shrunk_bytes(s.delta, needed), Entry::Remember(qa)),
            )
        }),
        ret != 0 ==> waits(
            session::on_generated(s, false, ret, generated),
            s,
            s.mode,
            Seq::empty(),
            None,
            s.history,
            s.delta,
        ),
        waits(
            session::on_generated(s, true, ret, generated),
            s,
            s.mode,
            bytes::ascii("bitapp: RAM_SHELL prompt stopped by Ctrl-C\n"@),
            None,
            s.history,
            s.delta,
        ),
{
    lemma_prompt(s.mode);
    assert(a.push(10) =~= a + seq![10u8]);
}

/// What stays of a history when an answered question is added: no more of the oldest records
/// than it takes are dropped, those on the same topic are, and the new one is the last.
pub proof fn law_newest_is_remembered(h: Seq<Qa>, qa: Qa, i: int)
    requires
        0 <= i < h.len(),
        weight(h) + qa.question.len() + qa.answer.len() + 64 <= 65536,
    ensures
        ({
            let needed = qa.question.len() + qa.answer.len() + 64int;
            let r = history::upserted(history::shrunk(h, needed), qa);
            &&& r.len() > 0 && r.last() == qa
            &&& history::qa_key(qa) is None ==> r == h.push(qa)
            &&& history::qa_key(qa) is Some ==> (r.drop_last().contains(h[i]) == (history::qa_key(
                h[i],
            ) != history::qa_key(qa)))
        }),
{
    lemma_weight(h);
    let needed = qa.question.len() + qa.answer.len() + 64int;
    assert(history::shrunk(h, needed) == h);
    let r = history::upserted(h, qa);
    if let Some(key) = history::qa_key(qa) {
        let p = history::filed_elsewhere(key);
        assert(r.drop_last() =~= h.filter(p));
        if p(h[i]) {
            h.lemma_filter_contains(p, i);
        }
        lemma_filtered(h, p);
    }
}

/// How much a history counts for: each record for its texts and eight bytes.
pub open spec fn weight(h: Seq<Qa>) -> int
    decreases h.len(),
{
    if h.len() == 0 {
        0
    } else {
        weight(h.drop_last()) + h.last().question.len() + h.last().answer.len() + 8
    }
}

proof fn lemma_weight(h: Seq<Qa>)
    ensures
        weight(h) == history::total_payload(h),
    decreases h.len(),
{
    if h.len() > 0 {
        lemma_weight(h.drop_last());
    }
}

proof fn lemma_filtered(h: Seq<Qa>, p: spec_fn(Qa) -> bool)
    ensures
        forall|x: Qa| h.filter(p).contains(x) ==> p(x),
{
    assert forall|x: Qa| h.filter(p).contains(x) implies p(x) by {
        h.lemma_filter_pred(p, h.filter(p).index_of(x));
    }
}

/// When the session was stored nothing of it is left to store; when it was not, all is. Then
/// the machine restarts if that was asked for, and a line is waited for else.
pub proof fn law_stored_is_not_stored_again(s: Shell, ret: i32)
    ensures
        ({
            let r = session::on_stored(s, ret, true);
            &&& r.1.request == Request::Reboot && r.0.pending == Pending::Restart
            &&& r.0.history == s.history
            &&& ret >= 0 ==> r.0.delta.len() == 0 && r.1.output.len() == 0
            &&& ret < 0 ==> r.0.delta == s.delta && r.1.output.len() > 0
        }),
        ({
            let r = session::on_stored(s, ret, false);
            if ret >= 0 {
                waits(r, s, s.mode, Seq::empty(), None, s.history, Seq::empty())
            } else {
                waits(r, s, s.mode, r.1.output, None, s.history, s.delta) && begins(
                    r.1.output,
                    "bitapp: RAM_SHELL failed to persist session delta to SSD memory DB: -"@,
                ) && r.1.output.last() == 10
            }
        }),
        ({
            let r = session::on_erased(s, ret);
            if ret >= 0 {
                waits(r, s, s.mode, Seq::empty(), None, s.history, s.delta)
            } else {
                waits(r, s, s.mode, r.1.output, None, s.history, s.delta) && begins(
                    r.1.output,
                    "bitapp: RAM_SHELL failed to erase SSD memory DB: -"@,
                ) && r.1.output.last() == 10
            }
        }),
{
    lemma_prompt(s.mode);
    reveal_strlit("bitapp: RAM_SHELL failed to persist session delta to SSD memory DB: ");
    reveal_strlit("bitapp: RAM_SHELL failed to persist session delta to SSD memory DB: -");
    reveal_strlit("bitapp: RAM_SHELL failed to erase SSD memory DB: ");
    reveal_strlit("bitapp: RAM_SHELL failed to erase SSD memory DB: -");
}

/// A byte that can be printed goes to the end of the line and is echoed; what was typed last is
/// taken back by a backspace, and the screen shows it no more. The line holds 255 bytes.
pub proof fn law_typing(s: Shell, ch: u8, back: u8)
    requires
        32 <= ch < 127,
        back == 8 || back == 127,
    ensures
        ({
            let r = session::on_byte(s, ch);
            &&& r.1.request == Request::Input && r.1.prompt.len() == 0 && r.1.capture is None
            &&& if s.line.len() < 255 {
                &&& r.0 == Shell { line: s.line + seq![ch], ..s }
                &&& r.1.output == seq![ch]
                &&& session::on_byte(r.0, back).0 == s
                &&& session::on_byte(r.0, back).1.output == seq![8u8, 32u8, 8u8]
            } else {
                r.0 == s && r.1.output.len() == 0
            }
        }),
        s.line.len() == 0 ==> session::on_byte(s, back).0 == s && session::on_byte(
            s,
            back,
        ).1.output.len() == 0,
        waits(
            session::on_byte(s, 3),
            s,
            RamShellMode::Command,
            bytes::ascii("^C\n"@),
            if s.mode == RamShellMode::Log {
                Some(true)
            } else {
                None
            },
            s.history,
            s.delta,
        ),
{
    lemma_prompt(RamShellMode::Command);
    assert(s.line.push(ch) =~= s.line + seq![ch]);
    assert(s.line.push(ch).drop_last() =~= s.line);
}

/// A line is ended by a carriage return or a line feed, and is then what it is without the
/// white space at its ends. Bytes that cannot be printed are not heeded.
pub proof fn law_lines_are_ended(s: Shell, ch: u8)
    ensures
        ch == 13 || ch == 10 ==> session::on_byte(s, ch) == (match s.mode {
            RamShellMode::Command => session::on_command(
                s,
                session::command_of(text::stripped(s.line)),
            ),
            RamShellMode::Prompt => session::on_command(
                s,
                session::prompt_command_of(text::stripped(s.line)),
            ),
            RamShellMode::Log => session::on_log_command(
                s,
                log_view::log_command_of(text::stripped(s.line)),
            ),
        }),
        (ch < 32 || ch >= 127) && ch != 3 && ch != 8 && ch != 10 && ch != 13 && ch != 127
            ==> session::on_byte(s, ch).0 == s && session::on_byte(s, ch).1.output.len() == 0
            && session::on_byte(s, ch).1.request == Request::Input,
{
}

/// While the log is open, leaving it goes back to command mode and captures again; a page is
/// shown where the log is that long.
pub proof fn law_log_is_paged(s: Shell, c: LogCommand, len: usize, page: Seq<u8>)
    requires
        0 <= s.log_offset <= usize::MAX,
    ensures
        waits(
            session::on_log_command(s, LogCommand::Leave),
            s,
            RamShellMode::Command,
            seq![10u8],
            Some(true),
            s.history,
            s.delta,
        ),
        waits(
            session::on_log_command(s, LogCommand::Help),
            s,
            s.mode,
            seq![10u8] + (bytes::ascii("commands: pgup, pgdn, top, bottom, refresh, help, exit\n"@)
                + bytes::ascii(
                "enter/pgdn: newer page; pgup: older page; exit: return to ram shell\n"@,
            )),
            None,
            s.history,
            s.delta,
        ),
        c != LogCommand::Leave && c != LogCommand::Help ==> requests(
            session::on_log_command(s, c),
            s,
            s.mode,
            Pending::LogLength { command: c },
            Request::LogLength,
            None,
        ) && session::on_log_command(s, c).0.history == s.history && session::on_log_command(
            s,
            c,
        ).0.delta == s.delta,
        ({
            let r = session::on_log_length(s, c, len);
            let at = log_view::page_after(c, s.log_offset, len as int);
            &&& r.0 == Shell {
                log_offset: at,
                pending: Pending::LogPage { offset: at as usize, log_len: len },
                ..s
            }
            &&& r.1.request == Request::LogPage { offset: at }
            &&& r.1.output.len() == 0 && r.1.prompt.len() == 0 && r.1.capture is None
        }),
        waits(
            session::on_log_page(s, s.log_offset as usize, len, page),
            s,
            s.mode,
            log_view::page_text(s.log_offset, len as int, page),
            None,
            s.history,
            s.delta,
        ),
{
    lemma_prompt(s.mode);
    lemma_prompt(RamShellMode::Command);
}

} // verus!
