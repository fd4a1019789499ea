use hermit_llm::shell::answer::{
    build_raw_prompt, c_string_len, check_prompt, generation_check, ram_shell_answer_bytes,
    strip_prefix_once, trim_trailing_orphan_one, AbortCheck, PromptCheck, PROMPT_BUF_LEN,
};
use hermit_llm::shell::boot::{
    allocation_layout, boot_milliseconds, boot_ms, boot_seconds, elapsed_ms, log_boot_delta,
    log_boot_event, n_threads,
};
use hermit_llm::shell::codec::{
    append_decimal, append_forget_to_history, append_serialized_forget, append_serialized_qa,
    append_to_history, find_byte, find_subslice, parse_decimal, parse_legacy_qa_records,
    parse_structured_qa_records,
};
use hermit_llm::shell::history::{
    forget_history_records, history_payload_len, qa_record_key, qa_record_payload_len,
    record_matches_forget_phrase, record_mentions_key, shrink_bytes, shrink_records,
    upsert_history_record, QaRecord, RAM_SHELL_HISTORY_CAP_BYTES,
};
use hermit_llm::shell::text::{
    contains_case_insensitive, contains_word_sequence, eq_ignore_ascii_case_byte,
    eq_ignore_ascii_case_slice, is_word_byte, looks_like_question, memory_key_from_text,
    starts_with_question_word, trim_ascii,
};

fn qa(q: &str, a: &str) -> QaRecord {
    QaRecord { question: q.as_bytes().to_vec(), answer: a.as_bytes().to_vec() }
}

fn pairs(h: &[QaRecord]) -> Vec<(String, String)> {
    h.iter()
        .map(|r| {
            (
                String::from_utf8(r.question.clone()).unwrap(),
                String::from_utf8(r.answer.clone()).unwrap(),
            )
        })
        .collect()
}

#[test]
fn trimming_takes_blanks_from_both_ends() {
    assert_eq!(trim_ascii(b" \t\r\n a b \n"), b"a b");
    assert_eq!(trim_ascii(b" \t\r\n"), b"");
    assert_eq!(trim_ascii(b"\x0bx"), b"\x0bx");
    let once = trim_ascii(b"  x y ").to_vec();
    assert_eq!(trim_ascii(&once), once.as_slice());
}

#[test]
fn words_and_cases() {
    assert!(is_word_byte(b'a') && is_word_byte(b'Z') && is_word_byte(b'7'));
    assert!(!is_word_byte(b'_') && !is_word_byte(b' '));
    assert!(eq_ignore_ascii_case_byte(b'Q', b'q'));
    assert!(!eq_ignore_ascii_case_byte(b'[', b'{'));
    assert!(eq_ignore_ascii_case_slice(b"HeLLo", b"hEllO"));
    assert!(!eq_ignore_ascii_case_slice(b"hello", b"hell"));
    assert!(contains_case_insensitive(b"The Secret", b"sEcR"));
    assert!(!contains_case_insensitive(b"abc", b""));
    assert!(!contains_case_insensitive(b"ab", b"abc"));
}

#[test]
fn phrases_are_adjacent_words() {
    let secret: [&[u8]; 2] = [b"secret", b"phrase"];
    assert!(contains_word_sequence(b"my SECRET, phrase!", &secret));
    assert!(!contains_word_sequence(b"secret of a phrase", &secret));
    assert!(contains_word_sequence(b"secret secret phrase", &secret));
    assert!(!contains_word_sequence(b"secretphrase", &secret));
    assert!(!contains_word_sequence(b"secret phrase", &[]));
}

#[test]
fn topics_have_a_key() {
    assert_eq!(memory_key_from_text(b"the secure phrase is x"), Some(b"secure phrase".to_vec()));
    assert_eq!(memory_key_from_text(b"stored secure phrase"), Some(b"secure phrase".to_vec()));
    assert_eq!(memory_key_from_text(b"Secured stored phrase"), Some(b"secure phrase".to_vec()));
    assert_eq!(memory_key_from_text(b"secret key"), Some(b"secret phrase".to_vec()));
    assert_eq!(
        memory_key_from_text(b"the memory test phrase"),
        Some(b"memory test phrase".to_vec())
    );
    assert_eq!(memory_key_from_text(b"project codename"), Some(b"codename".to_vec()));
    assert_eq!(memory_key_from_text(b"code name"), Some(b"codename".to_vec()));
    assert_eq!(memory_key_from_text(b"nothing here"), None);
}

#[test]
fn questions_are_recognised() {
    assert!(starts_with_question_word(b"  What is it"));
    assert!(starts_with_question_word(b"will"));
    assert!(!starts_with_question_word(b"whatever is it"));
    assert!(!starts_with_question_word(b"?what"));
    assert!(looks_like_question(b"tell me?"));
    assert!(!looks_like_question(b"tell me"));
}

#[test]
fn records_have_lengths_and_keys() {
    assert_eq!(qa_record_payload_len(&qa("abc", "de")), 13);
    assert_eq!(history_payload_len(&[qa("a", ""), qa("", "bc")]), 19);
    assert_eq!(
        qa_record_key(&qa("my codename is fox", "ok")),
        Some(b"codename".to_vec())
    );
    assert_eq!(qa_record_key(&qa("what is my codename", "fox")), None);
    assert_eq!(
        qa_record_key(&qa("what is it", "the secret phrase")),
        Some(b"secret phrase".to_vec())
    );
    assert!(record_mentions_key(&qa("what is my codename", "fox"), b"codename"));
    assert!(!record_mentions_key(&qa("a", "b"), b"codename"));
}

#[test]
fn a_topic_is_kept_once() {
    let mut h = vec![qa("my codename is fox", "ok"), qa("hello", "hi")];
    upsert_history_record(&mut h, qa("my codename is owl", "ok"));
    assert_eq!(
        pairs(&h),
        vec![
            ("hello".to_string(), "hi".to_string()),
            ("my codename is owl".to_string(), "ok".to_string()),
        ]
    );
    upsert_history_record(&mut h, qa("hello", "hi"));
    assert_eq!(h.len(), 3);
}

#[test]
fn forgetting_takes_all_that_match() {
    let mut h = vec![
        qa("my codename is fox", "ok"),
        qa("what is my codename", "fox"),
        qa("I like Tea", "noted"),
        qa("hello", "hi"),
    ];
    assert!(record_matches_forget_phrase(&h[1], b" codename "));
    assert!(!record_matches_forget_phrase(&h[3], b"  "));
    assert_eq!(forget_history_records(&mut h, b"code name"), 2);
    assert_eq!(h.len(), 2);
    assert_eq!(forget_history_records(&mut h, b"tea"), 1);
    assert_eq!(pairs(&h), vec![("hello".to_string(), "hi".to_string())]);
    assert_eq!(forget_history_records(&mut h, b""), 0);
    for r in &h {
        assert!(!record_matches_forget_phrase(r, b"tea"));
    }
}

#[test]
fn shrinking_makes_room() {
    let big = "x".repeat(30000);
    let mut h = vec![qa(&big, "1"), qa(&big, "2"), qa("q", "3")];
    shrink_records(&mut h, 10000);
    assert_eq!(h.len(), 2);
    assert!(history_payload_len(&h) + 10000 <= RAM_SHELL_HISTORY_CAP_BYTES);
    shrink_records(&mut h, 70000);
    assert!(h.is_empty());

    let mut b = vec![1u8; 65536];
    shrink_bytes(&mut b, 100);
    assert_eq!(b.len(), 65436);
    shrink_bytes(&mut b, 100);
    assert_eq!(b.len(), 65436);
    shrink_bytes(&mut b, 65536);
    assert!(b.is_empty());
}

#[test]
fn decimals_round_trip() {
    for (n, text) in [(0usize, "0"), (7, "7"), (1000, "1000"), (usize::MAX, "18446744073709551615")] {
        let mut out = Vec::new();
        append_decimal(&mut out, n);
        assert_eq!(out, text.as_bytes());
        assert_eq!(parse_decimal(&out), Some(n));
    }
    assert_eq!(parse_decimal(b""), None);
    assert_eq!(parse_decimal(b"1a"), None);
    assert_eq!(parse_decimal(b"18446744073709551616"), None);
    assert_eq!(parse_decimal(b"007"), Some(7));
}

#[test]
fn bytes_are_found() {
    assert_eq!(find_byte(b"abca", b'a', 0), Some(0));
    assert_eq!(find_byte(b"abca", b'a', 1), Some(3));
    assert_eq!(find_byte(b"abc", b'z', 0), None);
    assert_eq!(find_subslice(b"aabaab", b"ab", 2), Some(4));
    assert_eq!(find_subslice(b"ab", b"", 0), None);
    assert_eq!(find_subslice(b"ab", b"abc", 0), None);
}

#[test]
fn entries_are_written_out() {
    let mut log = Vec::new();
    append_serialized_qa(&mut log, b"hi", b"you");
    assert_eq!(log, b"[RAMQA v1 q=2 a=3]\nhi\nyou\n");
    append_serialized_forget(&mut log, b"tea");
    assert_eq!(log, b"[RAMQA v1 q=2 a=3]\nhi\nyou\n\n[RAMDEL v1 k=3]\ntea\n");
}

#[test]
fn a_log_is_replayed() {
    let mut history = Vec::new();
    let mut log = Vec::new();
    append_to_history(&mut history, &mut log, b"my codename is fox", b"ok");
    append_to_history(&mut history, &mut log, b"I like tea", b"noted");
    append_to_history(&mut history, &mut log, b"my codename is owl", b"ok");
    let removed = append_forget_to_history(&mut history, &mut log, b" tea ");
    assert_eq!(removed, 1);
    let mut replayed = Vec::new();
    parse_structured_qa_records(&log, &mut replayed);
    assert_eq!(pairs(&replayed), pairs(&history));
    assert_eq!(pairs(&history), vec![("my codename is owl".to_string(), "ok".to_string())]);
    assert_eq!(append_forget_to_history(&mut history, &mut log, b"  "), 0);
}

#[test]
fn joined_logs_replay_one_after_the_other() {
    let mut first = Vec::new();
    append_serialized_qa(&mut first, b"a b", b"c");
    let mut second = Vec::new();
    append_serialized_forget(&mut second, b"a b");
    append_serialized_qa(&mut second, b"d", b"e");
    let mut joined = first.clone();
    joined.extend_from_slice(&second);
    let mut replayed = Vec::new();
    parse_structured_qa_records(&joined, &mut replayed);
    let mut stepwise = Vec::new();
    parse_structured_qa_records(&first, &mut stepwise);
    parse_structured_qa_records(&second, &mut stepwise);
    assert_eq!(pairs(&replayed), pairs(&stepwise));
    assert_eq!(pairs(&replayed), vec![("d".to_string(), "e".to_string())]);
}

#[test]
fn older_entries_are_read_too() {
    let mut h = Vec::new();
    parse_legacy_qa_records(b"noise Q:  who \nA: me \nQ: x\nno answer\nQ: y\nA: z", &mut h);
    assert_eq!(
        pairs(&h),
        vec![("who".to_string(), "me".to_string()), ("y".to_string(), "z".to_string())]
    );
    let mut mixed = Vec::new();
    parse_structured_qa_records(
        b"Q: old\nA: one\n[RAMQA v1 q=1 a=1]\nn\nw\n[RAMQA v1 q=z]\nQ: late\nA: two\n",
        &mut mixed,
    );
    assert_eq!(
        pairs(&mixed),
        vec![
            ("old".to_string(), "one".to_string()),
            ("n".to_string(), "w".to_string()),
            ("late".to_string(), "two".to_string()),
        ]
    );
    let mut cut = Vec::new();
    parse_structured_qa_records(b"[RAMQA v1 q=5 a=5]\nabc", &mut cut);
    assert!(cut.is_empty());
}

#[test]
fn prompts_are_checked() {
    let mut buf = vec![9u8; PROMPT_BUF_LEN];
    assert_eq!(build_raw_prompt(&mut buf, b"hello"), 5);
    assert_eq!(&buf[..6], b"hello\0");
    assert_eq!(c_string_len(&buf), 5);
    assert_eq!(c_string_len(b"abc"), 3);
    let long = vec![b'a'; PROMPT_BUF_LEN];
    assert_eq!(build_raw_prompt(&mut buf, &long), 0);
    assert!(matches!(check_prompt(b"  "), PromptCheck::Empty));
    assert!(matches!(check_prompt(&long), PromptCheck::TooLong));
    match check_prompt("\u{b}\u{c}\u{85}\u{2009} a\u{a0}b\u{3000}\u{1680}\u{202f}\r\n".as_bytes()) {
        PromptCheck::Ready(buf) => assert_eq!(buf[..5], *b"a\xc2\xa0b\0"),
        _ => panic!("a text without the white space round it"),
    }
    assert!(matches!(check_prompt("\u{2028}\u{205f}".as_bytes()), PromptCheck::Empty));
    match check_prompt("\u{200b}x".as_bytes()) {
        PromptCheck::Ready(buf) => assert_eq!(buf[..5], *b"\xe2\x80\x8bx\0"),
        _ => panic!("a character that is no white space"),
    }
    match check_prompt(b" hi ") {
        PromptCheck::Ready(p) => assert_eq!(&p[..3], b"hi\0"),
        _ => panic!("the prompt fits"),
    }
}

#[test]
fn answers_are_cleaned() {
    assert_eq!(ram_shell_answer_bytes(b"  Answer: forty two \n"), b"forty two");
    assert_eq!(ram_shell_answer_bytes(b"final ANSWER:x"), b"x");
    assert_eq!(ram_shell_answer_bytes(b"A: A: x"), b"A: x");
    assert_eq!(trim_trailing_orphan_one(b"the sky is blue\n1."), b"the sky is blue");
    assert_eq!(trim_trailing_orphan_one(b"the sky is blue 1"), b"the sky is blue");
    assert_eq!(trim_trailing_orphan_one(b"room 1"), b"room 1");
    assert_eq!(trim_trailing_orphan_one(b"version2.1"), b"version2.1");
    assert_eq!(strip_prefix_once(b"abc", b"AB"), Some(&b"c"[..]));
    assert_eq!(strip_prefix_once(b"a", b"ab"), None);
}

#[test]
fn control_c_stops_generation() {
    assert!(matches!(generation_check(Some(3)), AbortCheck::Abort));
    assert!(matches!(generation_check(None), AbortCheck::Proceed));
    assert!(matches!(generation_check(Some(b'x')), AbortCheck::ReadOn));
}

#[test]
fn boot_times_are_written() {
    assert_eq!(elapsed_ms(1000, 5999), 4);
    assert_eq!(elapsed_ms(5, 1), 0);
    assert_eq!(boot_ms(2_345_678), 2345);
    assert_eq!(boot_seconds(2_345_678), 2);
    assert_eq!(boot_milliseconds(2_045_678), 45);
    assert_eq!(
        log_boot_event(2_045_678, b"start"),
        b"[ 2.045 ] bitapp: boot_timer event=start boot_ms=2045\n".to_vec()
    );
    assert_eq!(
        log_boot_delta(3_000_000, b"x", 1_000_000),
        b"[ 3.000 ] bitapp: boot_timer event=x boot_ms=3000 delta_ms=2000\n".to_vec()
    );
}

#[test]
fn threads_and_layouts() {
    assert_eq!(n_threads(None, Some(b"4")), 1);
    assert_eq!(n_threads(Some(b"1"), Some(b"4")), 4);
    assert_eq!(n_threads(Some(b"1"), Some(b"-4")), 1);
    assert_eq!(n_threads(Some(b"1"), Some(b"zz")), 1);
    assert_eq!(n_threads(Some(b"1"), None), 1);
    assert_eq!(allocation_layout(0, 1), (1, 8));
    assert_eq!(allocation_layout(100, 33), (100, 64));
}
