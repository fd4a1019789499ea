use hermit_llm::shell::history::QaRecord;
use hermit_llm::shell::log_view::{
    console_log_clamp_offset, console_log_max_offset, parse_log_command, render_console_log_page,
    turn_page, write_console_log_bytes, LogCommand,
};
use hermit_llm::shell::session::{
    load_memory_db_history, RamShell, RamShellMode, ShellRequest, ShellTurn,
};

fn enter(shell: &mut RamShell, text: &str) -> ShellTurn {
    for b in text.bytes() {
        shell.on_byte(b);
    }
    shell.on_byte(b'\n')
}

fn printed(t: &ShellTurn) -> Vec<u8> {
    [t.output.clone(), t.prompt.clone()].concat()
}

fn is_input(t: &ShellTurn) -> bool {
    matches!(t.request, ShellRequest::Input)
}

#[test]
fn pages_of_the_log() {
    assert_eq!(console_log_max_offset(5000), 3976);
    assert_eq!(console_log_max_offset(10), 0);
    assert_eq!(console_log_clamp_offset(9000, 5000), 3976);
    let mut out = Vec::new();
    write_console_log_bytes(&mut out, b"a\r\x01\tb\n");
    assert_eq!(out, b"a\n?\tb\n");
    assert_eq!(
        render_console_log_page(10, 13, b"abc"),
        b"\x0cconsole log bytes 10..13 of 13\nabc\n-- pgup older | pgdn newer | top | bottom | refresh | exit --\n".to_vec()
    );
    assert_eq!(render_console_log_page(0, 0, b""), b"\x0cconsole log is empty\n".to_vec());
    assert!(matches!(parse_log_command(b"pgdn"), LogCommand::Newer));
    assert!(matches!(parse_log_command(b""), LogCommand::Newer));
    assert!(matches!(parse_log_command(b"up"), LogCommand::Older));
    assert!(matches!(parse_log_command(b"q"), LogCommand::Leave));
    assert!(matches!(parse_log_command(b"nonsense"), LogCommand::Help));
    assert_eq!(turn_page(LogCommand::Newer, 0, 5000), 1024);
    assert_eq!(turn_page(LogCommand::Newer, 3500, 5000), 3976);
    assert_eq!(turn_page(LogCommand::Older, turn_page(LogCommand::Newer, 100, 5000), 5000), 100);
    assert_eq!(turn_page(LogCommand::Top, 3000, 5000), 0);
    assert_eq!(turn_page(LogCommand::Bottom, 0, 5000), 3976);
    assert_eq!(turn_page(LogCommand::Refresh, 4500, 5000), 3976);
}

#[test]
fn a_question_is_asked_and_remembered() {
    let (mut shell, first) = RamShell::new(Vec::new());
    assert_eq!(first, b"ram> ".to_vec());
    let turn = enter(&mut shell, "prompt my codename is fox");
    match turn.request {
        ShellRequest::RunModel { prompt } => assert_eq!(&prompt[..18], b"my codename is fox"),
        _ => panic!("the model runs"),
    }
    let mut generated = b"Answer: noted".to_vec();
    generated.push(0);
    let turn = shell.on_generated(false, 0, &generated);
    assert!(is_input(&turn));
    assert_eq!(printed(&turn), b"noted\nmodel> ".to_vec());
    assert!(shell.mode == RamShellMode::Prompt);
    assert_eq!(shell.history.len(), 1);

    let turn = enter(&mut shell, "exit");
    match turn.request {
        ShellRequest::Store { data } => {
            assert_eq!(data, b"[RAMQA v1 q=18 a=5]\nmy codename is fox\nnoted\n".to_vec())
        }
        _ => panic!("the session is stored"),
    }
    let turn = shell.on_stored(0);
    assert!(is_input(&turn));
    assert!(shell.session_delta.is_empty());
    assert!(shell.mode == RamShellMode::Command);
}

#[test]
fn forgetting_is_stored_as_well() {
    let old = vec![QaRecord { question: b"I like tea".to_vec(), answer: b"ok".to_vec() }];
    let (mut shell, _) = RamShell::new(old);
    let turn = enter(&mut shell, "forget tea");
    assert!(is_input(&turn));
    assert!(shell.history.is_empty());
    assert_eq!(shell.session_delta, b"[RAMDEL v1 k=3]\ntea\n".to_vec());
}

#[test]
fn a_store_that_fails_keeps_the_session() {
    let (mut shell, _) = RamShell::new(Vec::new());
    enter(&mut shell, "forget tea");
    let before = shell.session_delta.clone();
    let turn = enter(&mut shell, "exit");
    assert!(matches!(turn.request, ShellRequest::Store { .. }));
    let turn = shell.on_stored(-5);
    assert!(is_input(&turn));
    assert_eq!(shell.session_delta, before);
    assert_eq!(
        printed(&turn),
        b"bitapp: RAM_SHELL failed to persist session delta to SSD memory DB: -5\nram> ".to_vec()
    );
}

#[test]
fn erasing_clears_all() {
    let old = vec![QaRecord { question: b"a".to_vec(), answer: b"b".to_vec() }];
    let (mut shell, _) = RamShell::new(old);
    let turn = enter(&mut shell, "erase memory");
    assert!(matches!(turn.request, ShellRequest::EraseStore));
    let turn = shell.on_erased(0);
    assert!(is_input(&turn) && shell.history.is_empty());
    assert_eq!(printed(&turn), b"ram> ".to_vec());
}

#[test]
fn stopping_remembers_nothing() {
    let (mut shell, _) = RamShell::new(Vec::new());
    enter(&mut shell, "prompt hello");
    let turn = shell.on_generated(true, 0, b"half");
    assert_eq!(printed(&turn), b"bitapp: RAM_SHELL prompt stopped by Ctrl-C\nmodel> ".to_vec());
    assert!(shell.history.is_empty() && shell.session_delta.is_empty());
    let (mut shell, _) = RamShell::new(Vec::new());
    enter(&mut shell, "prompt hello");
    let turn = shell.on_generated(false, 1, b"x");
    assert_eq!(printed(&turn), b"model> ".to_vec());
    assert!(shell.history.is_empty());
}

#[test]
fn editing_a_line() {
    let (mut shell, _) = RamShell::new(Vec::new());
    assert_eq!(shell.on_byte(b'x').output, b"x".to_vec());
    assert_eq!(shell.on_byte(8).output, b"\x08 \x08".to_vec());
    assert_eq!(shell.on_byte(127).output, b"".to_vec());
    assert_eq!(shell.on_byte(1).output, b"".to_vec());
    for _ in 0..300 {
        shell.on_byte(b'a');
    }
    assert_eq!(shell.line.len(), 255);
    let turn = shell.on_byte(3);
    assert_eq!(printed(&turn), b"^C\nram> ".to_vec());
    assert!(shell.line.is_empty());
    let turn = enter(&mut shell, "hello");
    assert_eq!(printed(&turn), b"\nram: hello\nram> ".to_vec());
    let turn = enter(&mut shell, "clear");
    assert_eq!(printed(&turn), [vec![b'\n'; 41], b"ram> ".to_vec()].concat());
}

#[test]
fn the_log_is_captured_again_when_left() {
    let (mut shell, _) = RamShell::new(Vec::new());
    let turn = enter(&mut shell, "log");
    assert_eq!(turn.capture, Some(false));
    assert!(matches!(turn.request, ShellRequest::LogLength));
    let turn = shell.on_log_length(2000);
    match turn.request {
        ShellRequest::LogPage { offset } => assert_eq!(offset, 976),
        _ => panic!("a page is asked for"),
    }
    let turn = shell.on_log_page(&[b'z'; 1024]);
    assert!(is_input(&turn));
    assert!(turn.prompt.ends_with(b"log> "));
    assert!(shell.mode == RamShellMode::Log);
    let turn = enter(&mut shell, "exit");
    assert_eq!(turn.capture, Some(true));
    assert_eq!((turn.output, turn.prompt), (b"\n".to_vec(), b"ram> ".to_vec()));
    assert!(shell.mode == RamShellMode::Command);

    enter(&mut shell, "log");
    shell.on_log_length(0);
    shell.on_log_page(&[]);
    let turn = shell.on_byte(3);
    assert_eq!(turn.capture, Some(true));
    assert_eq!((turn.output, turn.prompt), (b"^C\n".to_vec(), b"ram> ".to_vec()));
}

#[test]
fn rebooting_stores_first() {
    let (mut shell, _) = RamShell::new(Vec::new());
    enter(&mut shell, "forget tea");
    let turn = enter(&mut shell, "reboot");
    assert!(matches!(turn.request, ShellRequest::Store { .. }));
    let turn = shell.on_stored(0);
    assert!(matches!(turn.request, ShellRequest::Reboot));
    let (mut shell, _) = RamShell::new(Vec::new());
    let turn = enter(&mut shell, "reboot");
    assert!(matches!(turn.request, ShellRequest::Reboot));
}

#[test]
fn what_was_stored_is_loaded() {
    let log = b"[RAMQA v1 q=1 a=1]\na\nb\n";
    let h = load_memory_db_history(log.len() as i32, log);
    assert_eq!(h.len(), 1);
    assert_eq!(h[0].question, b"a".to_vec());
    assert!(load_memory_db_history(-1, log).is_empty());
    assert!(load_memory_db_history(0, log).is_empty());
}
