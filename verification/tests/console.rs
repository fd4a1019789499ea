use hermit_llm::console::gop::{
    encode_pixel, kernel_gop_marker, write_bytes, FramebufferFormat, FramebufferInfo, GopConsole, Rect,
};
use hermit_llm::console::log::{ConsoleLog, CONSOLE_LOG_CAPACITY};
use hermit_llm::console::memory::{is_console_page, read_plan, rx_len, write_step};
use hermit_llm::console::serial::{
    backend, get_serial_handler, Backend, ConsolePage, SerialDevice, UartQueue,
};
use hermit_llm::processor::processor_frequency_override;
use hermit_llm::stdio::{
    GenericStderr, GenericStdin, GenericStdout, ReadOutcome, UhyveStderr, UhyveStdin, UhyveStdout,
};

#[test]
fn the_log_keeps_the_newest_bytes() {
    let mut log = ConsoleLog::new();
    log.append(b"hello ");
    log.append(b"world");
    assert_eq!(log.len(), 11);
    assert_eq!(log.read(6, 3), b"wor");
    assert_eq!(log.read(11, 3), b"");
    log.set_capture_enabled(false);
    log.append(b"unseen");
    assert_eq!(log.len(), 11);
    log.set_capture_enabled(true);
    log.append(&vec![b'x'; CONSOLE_LOG_CAPACITY - 4]);
    assert_eq!(log.len(), CONSOLE_LOG_CAPACITY);
    assert_eq!(log.read(0, 6), b"orldxx");
    let mut parts = ConsoleLog::new();
    parts.append(b"hello world");
    let mut again = ConsoleLog::new();
    again.append(b"hel");
    again.append(b"lo world");
    assert_eq!(parts.read(0, 100), again.read(0, 100));
}

#[test]
fn the_console_page_is_a_ring() {
    assert!(is_console_page(0x5643_4f4e, 1));
    assert!(!is_console_page(0x5643_4f4e, 2));
    assert_eq!(rx_len(5, 2), 3);
    assert_eq!(rx_len(5000, 0), 2032);
    assert_eq!(read_plan(2034, 2030, 3), (vec![2030, 2031, 0], 2033));
    let s = write_step(2031, 0);
    assert_eq!((s.slot, s.write, s.read), (2031, 2032, None));
    let s = write_step(2032, 0);
    assert_eq!((s.slot, s.write, s.read), (0, 2033, Some(1)));
}

#[test]
fn the_serial_device_picks_its_backend() {
    let page = ConsolePage { address: 0x1000, magic: 0x5643_4f4e, version: 1 };
    let wrong = ConsolePage { address: 0x1000, magic: 0, version: 1 };
    assert!(matches!(backend(Some(page), true), Backend::Memory(0x1000)));
    assert!(matches!(backend(Some(wrong), true), Backend::Uart));
    assert!(matches!(backend(None, false), Backend::Null));
    assert_eq!(get_serial_handler(&Backend::Uart), Some(4));
    assert_eq!(get_serial_handler(&Backend::Null), None);
}

#[test]
fn received_bytes_are_read_in_order() {
    let mut q = UartQueue::new();
    let d = SerialDevice::new();
    assert!(q.is_empty());
    assert!(!d.read_ready(&Backend::Uart, 0, &q));
    for b in b"abcdef" {
        q.receive(*b);
    }
    assert!(d.read_ready(&Backend::Uart, 0, &q));
    assert!(d.read_ready(&Backend::Memory(0), 3, &q));
    assert!(!d.read_ready(&Backend::Null, 3, &q));
    let mut all = Vec::new();
    while !q.is_empty() {
        let got = q.read(4);
        assert!(!got.is_empty() && got.len() <= 4);
        all.extend_from_slice(&got);
    }
    assert_eq!(all, b"abcdef");
    assert_eq!(q.read(4), b"");
}

fn info(width: u64, height: u64, format: FramebufferFormat) -> Option<FramebufferInfo> {
    Some(FramebufferInfo { address: 0x8000_0000, width, height, stride: width * 4, format })
}

#[test]
fn pixels_follow_the_format() {
    assert_eq!(encode_pixel(FramebufferFormat::Bgr, 0x0012_3456), Some(0x0012_3456));
    assert_eq!(encode_pixel(FramebufferFormat::Rgb, 0x0012_3456), Some(0x0056_3412));
    assert_eq!(encode_pixel(FramebufferFormat::Unknown, 1), None);
    let m = kernel_gop_marker(info(640, 480, FramebufferFormat::Rgb), 3, 0xff);
    match m {
        Some(r) => assert_eq!((r.x, r.y, r.width, r.height, r.value), (120, 0, 32, 32, 0xff_0000)),
        None => panic!("a marker is drawn"),
    }
    assert!(kernel_gop_marker(None, 0, 0).is_none());
}

#[test]
fn text_is_drawn_on_the_screen() {
    assert!(GopConsole::new(None).is_none());
    assert!(GopConsole::new(info(16, 480, FramebufferFormat::Bgr)).is_none());
    assert!(GopConsole::new(info(640, 480, FramebufferFormat::Unknown)).is_none());
    let (made, cleared) = GopConsole::new(info(40, 64, FramebufferFormat::Bgr)).unwrap();
    assert_eq!(cleared, Rect { x: 0, y: 0, width: 40, height: 64, value: 0 });
    let mut console = Some(made);
    let mut font = vec![0u8; 95 * 16];
    font[(b'A' - b' ') as usize * 16] = 0x80;
    let drawn = write_bytes(&mut console, &font, b"A");
    assert!(drawn.iter().any(|r| r.value == 0x00ff_ff00 && r.x == 0 && r.y == 0));
    for r in &drawn {
        assert!(r.x + r.width <= 40 && r.y + r.height <= 64);
    }
    match &console {
        Some(c) => assert_eq!((c.cursor_col, c.cursor_row, c.cols, c.rows), (1, 0, 2, 2)),
        None => panic!("the console stays"),
    }
    let cleared = write_bytes(&mut console, &font, b"\x0c");
    assert_eq!(cleared.len(), 1);
    assert_eq!((cleared[0].width, cleared[0].height, cleared[0].value), (40, 64, 0));
    write_bytes(&mut console, &font, b"AB\n\r");
    let mut nowhere: Option<GopConsole> = None;
    assert!(write_bytes(&mut nowhere, &font, b"A").is_empty());
}

#[test]
fn standard_streams_answer_what_was_asked() {
    let i = GenericStdin::new();
    assert_eq!(i.poll(0x41, true, false), 0x41);
    assert_eq!(i.poll(0x41, false, false), 0);
    assert!(matches!(i.after_keyboard(3), ReadOutcome::Ready(3)));
    assert!(matches!(i.after_keyboard(0), ReadOutcome::AskConsole));
    assert!(matches!(i.after_console(0, false), ReadOutcome::Pending));
    assert!(matches!(i.after_console(2, false), ReadOutcome::Ready(2)));
    assert!(matches!(i.after_console(0, true), ReadOutcome::Ready(0)));
    assert!(i.isatty() && UhyveStdin::new().isatty());
    assert_eq!(i.fstat(), 0x2000);
    assert_eq!(UhyveStdin::new().fstat(), 0x2000);
    assert_eq!(GenericStdout::new().poll(0x45), 4);
    assert_eq!(GenericStderr::new().poll(0x40), 0);
    assert_eq!(UhyveStdout::new().poll(0x304), 0x304);
    assert_eq!(UhyveStderr::new().poll(4), 4);
    assert!(GenericStdout::new().isatty() && UhyveStderr::new().isatty());
    assert_eq!(processor_frequency_override(Some(2400)), 2400);
    assert_eq!(processor_frequency_override(None), 0);
}
