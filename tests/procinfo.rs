use memtrace::procinfo::{parse_stat, ParseError, ProcessState, StatField};

const RECORD: &str = "1234 (bash) S 1 1234 1234 34816 5678 10 20 30 40 20 0 1 98765 123456789 4321 18446744073709551615";

#[test]
fn parses_full_record() {
    let st = parse_stat(RECORD).unwrap();
    assert_eq!(st.pid, 1234);
    assert_eq!(st.name, "bash");
    assert_eq!(st.state, 'S');
    assert_eq!(st.ppid, 1);
    assert_eq!(st.pgrp, 1234);
    assert_eq!(st.session, 1234);
    assert_eq!(st.tty_nr, 34816);
    assert_eq!(st.tpgid, 5678);
    assert_eq!(st.utime, 10);
    assert_eq!(st.stime, 20);
    assert_eq!(st.cutime, 30);
    assert_eq!(st.cstime, 40);
    assert_eq!(st.priority, 20);
    assert_eq!(st.nice, 0);
    assert_eq!(st.num_threads, 1);
    assert_eq!(st.starttime, 98765);
    assert_eq!(st.vsize, 123456789);
    assert_eq!(st.rss, 4321);
    assert_eq!(st.rsslim, 18446744073709551615);
}

#[test]
fn ignores_text_after_last_field() {
    let text = format!("{} 0 0 0\n", RECORD);
    let st = parse_stat(&text).unwrap();
    assert_eq!(st.rsslim, 18446744073709551615);
}

#[test]
fn name_with_close_paren_is_kept_whole() {
    let st = parse_stat("7 ((my)proc) R 1 7 7 0 7 1 2 3 4 20 0 1 5 6 7 8").unwrap();
    assert_eq!(st.name, "(my)proc");
    let st = parse_stat("7 (my)proc) R 1 7 7 0 7 1 2 3 4 20 0 1 5 6 7 8").unwrap();
    assert_eq!(st.name, "my)proc");
    assert_eq!(st.state, 'R');
}

#[test]
fn name_with_spaces_and_digits() {
    let st = parse_stat("9 (a b 12) Z 1 2 3 4 5 6 7 8 9 10 11 12 13 14 15 16").unwrap();
    assert_eq!(st.name, "a b 12");
    assert_eq!(st.state, 'Z');
    assert_eq!(st.rsslim, 16);
}

#[test]
fn parsing_twice_gives_same_snapshot() {
    let a = parse_stat(RECORD).unwrap();
    let b = parse_stat(RECORD).unwrap();
    assert_eq!(format!("{:?}", a), format!("{:?}", b));
    assert_eq!(parse_stat("x").unwrap_err(), parse_stat("x").unwrap_err());
}

fn error_of(text: &str) -> StatField {
    let e: ParseError = parse_stat(text).unwrap_err();
    e.field
}

#[test]
fn each_failing_field_is_named() {
    assert_eq!(error_of(""), StatField::Pid);
    assert_eq!(error_of("abc (x) S 1"), StatField::Pid);
    assert_eq!(error_of("2147483648 (x) S 1 2 3 4 5 6 7 8 9 10 11 12 13 14 15 16"), StatField::Pid);
    assert_eq!(error_of("12 x) S 1"), StatField::Name);
    assert_eq!(error_of("12 (x S 1"), StatField::Name);
    assert_eq!(error_of("12 (x)S 1"), StatField::State);
    assert_eq!(error_of("12 (x) "), StatField::State);
    assert_eq!(error_of("12 (x) S"), StatField::Ppid);
    assert_eq!(error_of("12 (x) S -1 2"), StatField::Ppid);
    assert_eq!(error_of("12 (x) S 1 2 3 4 5 6 7 8 9 10 11 12 13 14 15"), StatField::Rsslim);
    assert_eq!(error_of("12 (x) S 1 2 3 4 5 6 7 8 9 10 11 12 13 14 9223372036854775808 16"), StatField::Rss);
    assert_eq!(error_of("12 (x) S 1 2 3 4 5 6 7 8 9 10 11 12 13 18446744073709551616 15 16"), StatField::Vsize);
    assert_eq!(error_of("12 (x) S 1 2 3 4 5 6 7 8 9 10  12 13 14 15 16"), StatField::Nice);
    assert_eq!(error_of("12 (x) S 1 2 3 4 5 6 7 8 9 -10 11 12 13 14 15 16"), StatField::Priority);
    assert_eq!(error_of("12 (x) S 1 2 3 4 5 6 7 8 x 10 11 12 13 14 15 16"), StatField::Cstime);
    assert_eq!(error_of("12 (x) S 1 2 3 4 5 6 7 8 9 10 11 x 13 14 15 16"), StatField::NumThreads);
    assert_eq!(error_of("12 (x) S 1 2 3 4 5 6 7 8 9 10 11 12 x 14 15 16"), StatField::Starttime);
    assert_eq!(error_of("12 (x) S 1 2147483648 3 4 5 6 7 8 9 10 11 12 13 14 15 16"), StatField::Pgrp);
    assert_eq!(error_of("12 (x) S 1 2 3 4 5 x 7 8 9 10 11 12 13 14 15 16"), StatField::Utime);
}

#[test]
fn state_codes() {
    assert_eq!(ProcessState::from_code('R'), Some(ProcessState::Running));
    assert_eq!(ProcessState::from_code('S'), Some(ProcessState::Sleeping));
    assert_eq!(ProcessState::from_code('D'), Some(ProcessState::UintSleep));
    assert_eq!(ProcessState::from_code('Z'), Some(ProcessState::Zombie));
    assert_eq!(ProcessState::from_code('T'), Some(ProcessState::Stopped));
    assert_eq!(ProcessState::from_code('t'), Some(ProcessState::TracingStop));
    assert_eq!(ProcessState::from_code('W'), Some(ProcessState::Paging));
    assert_eq!(ProcessState::from_code('Q'), None);
}
