//! Paging through the captured console log.

use vstd::prelude::*;

use crate::bytes;
use crate::shell::codec;

verus! {

/// How many bytes of the log one page shows.
pub const RAM_SHELL_LOG_PAGE_BYTES: usize = 1024;

/// Where the last page of a log starts.
pub open spec fn last_page(log_len: int) -> int {
    if log_len > RAM_SHELL_LOG_PAGE_BYTES {
        log_len - RAM_SHELL_LOG_PAGE_BYTES
    } else {
        0
    }
}

/// Where the last page of a log starts.
pub fn console_log_max_offset(log_len: usize) -> (r: usize)
    ensures
        r == last_page(log_len as int),
{
    log_len.saturating_sub(RAM_SHELL_LOG_PAGE_BYTES)
}

/// `offset`, or where the last page starts if that is earlier.
pub open spec fn clamped(offset: int, log_len: int) -> int {
    if offset <= last_page(log_len) {
        offset
    } else {
        last_page(log_len)
    }
}

/// Keeps a page inside the log.
pub fn console_log_clamp_offset(offset: usize, log_len: usize) -> (r: usize)
    ensures
        r == clamped(offset as int, log_len as int),
{
    let max: usize = console_log_max_offset(log_len);
    if offset <= max {
        offset
    } else {
        max
    }
}

/// How a byte of the log is shown.
pub open spec fn shown(b: u8) -> u8 {
    if b == 0x0a || b == 0x09 || 0x20 <= b <= 0x7e {
        b
    } else if b == 0x0d {
        0x0a
    } else {
        0x3f
    }
}

/// How bytes of the log are shown.
pub open spec fn shown_all(page: Seq<u8>) -> Seq<u8> {
    page.map_values(|b: u8| shown(b))
}

/// Appends bytes of the log the way they are shown.
pub fn write_console_log_bytes(out: &mut Vec<u8>, page: &[u8])
    ensures
        final(out)@ == old(out)@ + shown_all(page@),
{
    let ghost before = out@;
    let mut i: usize = 0;
    while i < page.len()
        invariant
            i <= page.len(),
            out@ == before + shown_all(page@.take(i as int)),
        decreases page.len() - i,
    {
        let byte = page[i];
        let printed: u8 = match byte {
            0x0a | 0x09 | 0x20..=0x7e => byte,
            0x0d => 0x0a,
            _ => 0x3f,
        };
        out.push(printed);
        i += 1;
        assert(out@ =~= before + shown_all(page@.take(i as int)));
    }
    assert(page@.take(i as int) =~= page@);
}

/// What a page of the log looks like.
pub open spec fn page_text(offset: int, log_len: int, page: Seq<u8>) -> Seq<u8> {
    if log_len == 0 || page.len() == 0 {
        seq![0x0cu8] + bytes::ascii("console log is empty\n"@)
    } else {
        seq![0x0cu8] + bytes::ascii("console log bytes "@) + codec::decimal(offset as nat)
            + bytes::ascii(".."@) + codec::decimal((offset + page.len()) as nat) + bytes::ascii(
            " of "@,
        ) + codec::decimal(log_len as nat) + seq![0x0au8] + shown_all(page) + (if page.last()
            == 0x0a {
            Seq::empty()
        } else {
            seq![0x0au8]
        }) + bytes::ascii("-- pgup older | pgdn newer | top | bottom | refresh | exit --\n"@)
    }
}

/// Renders a page of the log.
pub fn render_console_log_page(offset: usize, log_len: usize, page: &[u8]) -> (r: Vec<u8>)
    requires
        offset + page.len() <= usize::MAX,
    ensures
        r@ == page_text(offset as int, log_len as int, page@),
{
    let mut out: Vec<u8> = vec![0x0c];
    assert(out@ =~= seq![0x0cu8]);
    if log_len == 0 || page.len() == 0 {
        proof {
            reveal_strlit("console log is empty\n");
        }
        out.extend_from_slice(bytes::lit("console log is empty\n"));
        assert(out@ =~= page_text(offset as int, log_len as int, page@));
        return out;
    }
    proof {
        reveal_strlit("console log bytes ");
        reveal_strlit("..");
        reveal_strlit(" of ");
        reveal_strlit("-- pgup older | pgdn newer | top | bottom | refresh | exit --\n");
    }
    out.extend_from_slice(bytes::lit("console log bytes "));
    codec::append_decimal(&mut out, offset);
    out.extend_from_slice(bytes::lit(".."));
    codec::append_decimal(&mut out, offset + page.len());
    out.extend_from_slice(bytes::lit(" of "));
    codec::append_decimal(&mut out, log_len);
    out.push(0x0a);
    write_console_log_bytes(&mut out, page);
    if page[page.len() - 1] != 0x0a {
        out.push(0x0a);
    }
    out.extend_from_slice(
        bytes::lit("-- pgup older | pgdn newer | top | bottom | refresh | exit --\n"),
    );
    assert(out@ =~= page_text(offset as int, log_len as int, page@));
    out
}

/// What was asked for while the log is open.
#[derive(Clone, Copy, PartialEq, Eq, Structural)]
pub enum LogCommand {
    Newer,
    Older,
    Top,
    Bottom,
    Refresh,
    Help,
    Leave,
}

/// What a line, blanks at its ends aside, asks for while the log is open.
pub open spec fn log_command_of(line: Seq<u8>) -> LogCommand {
    if line.len() == 0 || line == bytes::ascii("pgdn"@) || line == bytes::ascii("next"@) || line
        == bytes::ascii("down"@) {
        LogCommand::Newer
    } else if line == bytes::ascii("pgup"@) || line == bytes::ascii("prev"@) || line
        == bytes::ascii("up"@) {
        LogCommand::Older
    } else if line == bytes::ascii("top"@) {
        LogCommand::Top
    } else if line == bytes::ascii("bottom"@) || line == bytes::ascii("end"@) {
        LogCommand::Bottom
    } else if line == bytes::ascii("refresh"@) || line == bytes::ascii("r"@) {
        LogCommand::Refresh
    } else if line == bytes::ascii("exit"@) || line == bytes::ascii("quit"@) || line
        == bytes::ascii("q"@) {
        LogCommand::Leave
    } else {
        LogCommand::Help
    }
}

/// Reads a line typed while the log is open.
pub fn parse_log_command(line: &[u8]) -> (r: LogCommand)
    ensures
        r == log_command_of(line@),
{
    proof {
        reveal_strlit("pgdn");
        reveal_strlit("next");
        reveal_strlit("down");
        reveal_strlit("pgup");
        reveal_strlit("prev");
        reveal_strlit("up");
        reveal_strlit("top");
        reveal_strlit("bottom");
        reveal_strlit("end");
        reveal_strlit("refresh");
        reveal_strlit("r");
        reveal_strlit("exit");
        reveal_strlit("quit");
        reveal_strlit("q");
    }
    if line.len() == 0 || bytes::same_bytes(line, bytes::lit("pgdn")) || bytes::same_bytes(
        line,
        bytes::lit("next"),
    ) || bytes::same_bytes(line, bytes::lit("down")) {
        LogCommand::Newer
    } else if bytes::same_bytes(line, bytes::lit("pgup")) || bytes::same_bytes(
        line,
        bytes::lit("prev"),
    ) || bytes::same_bytes(line, bytes::lit("up")) {
        LogCommand::Older
    } else if bytes::same_bytes(line, bytes::lit("top")) {
        LogCommand::Top
    } else if bytes::same_bytes(line, bytes::lit("bottom")) || bytes::same_bytes(
        line,
        bytes::lit("end"),
    ) {
        LogCommand::Bottom
    } else if bytes::same_bytes(line, bytes::lit("refresh")) || bytes::same_bytes(
        line,
        bytes::lit("r"),
    ) {
        LogCommand::Refresh
    } else if bytes::same_bytes(line, bytes::lit("exit")) || bytes::same_bytes(
        line,
        bytes::lit("quit"),
    ) || bytes::same_bytes(line, bytes::lit("q")) {
        LogCommand::Leave
    } else {
        LogCommand::Help
    }
}

/// The page that a command turns to, from the page at `offset` of a log of `log_len` bytes.
pub open spec fn page_after(command: LogCommand, offset: int, log_len: int) -> int {
    match command {
        LogCommand::Newer => clamped(offset + RAM_SHELL_LOG_PAGE_BYTES, log_len),
        LogCommand::Older => clamped(
            if offset > RAM_SHELL_LOG_PAGE_BYTES {
                offset - RAM_SHELL_LOG_PAGE_BYTES
            } else {
                0
            },
            log_len,
        ),
        LogCommand::Top => 0,
        LogCommand::Bottom => last_page(log_len),
        _ => clamped(offset, log_len),
    }
}

/// Finds the page that a command turns to.
pub fn turn_page(command: LogCommand, offset: usize, log_len: usize) -> (r: usize)
    ensures
        r == page_after(command, offset as int, log_len as int),
{
    match command {
        LogCommand::Newer => console_log_clamp_offset(
            offset.saturating_add(RAM_SHELL_LOG_PAGE_BYTES),
            log_len,
        ),
        LogCommand::Older => console_log_clamp_offset(
            offset.saturating_sub(RAM_SHELL_LOG_PAGE_BYTES),
            log_len,
        ),
        LogCommand::Top => 0,
        LogCommand::Bottom => console_log_max_offset(log_len),
        _ => console_log_clamp_offset(offset, log_len),
    }
}

/// Whatever is asked for, the page shown lies inside the log: a full page unless the log
/// is shorter than one.
pub proof fn law_pages_stay_inside(command: LogCommand, offset: int, log_len: int)
    requires
        0 <= offset,
        0 <= log_len,
    ensures
        0 <= page_after(command, offset, log_len) <= log_len,
        log_len >= RAM_SHELL_LOG_PAGE_BYTES ==> page_after(command, offset, log_len)
            + RAM_SHELL_LOG_PAGE_BYTES <= log_len,
{
}

/// Away from the ends of the log, turning to the newer page and back shows the same page.
pub proof fn law_newer_then_older(offset: int, log_len: int)
    requires
        0 <= offset,
        offset + RAM_SHELL_LOG_PAGE_BYTES <= last_page(log_len),
    ensures
        page_after(
            LogCommand::Older,
            page_after(LogCommand::Newer, offset, log_len),
            log_len,
        ) == offset,
{
}

} // verus!
