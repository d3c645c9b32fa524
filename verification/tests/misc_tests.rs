use deet::breakpoint::{Breakpoint, lookup_bp};
use deet::hangman::{checkWin, get_masked_secret_word, handle_guess, pick_a_random_word};
use deet::inferior::{Inferior, Status, TraceError, decode_wait};
use deet::trace::RawWait;
use deet::linked_list::{LinkedList, LinkedListIterator};
use deet::process::{OpenFile, Process};
use deet::rate_limiter::RateLimiter;
use deet::wc::{count_text, count_words};

#[test]
fn test_masked_secret_word() {
    let chars: Vec<char> = "hello".chars().collect();
    let show = vec![true, false, false, false, true];
    assert_eq!(get_masked_secret_word(&chars, &show), "h___o");
}

#[test]
fn test_handle_guess_reveals_first_hidden_match() {
    let chars: Vec<char> = "hello".chars().collect();
    let mut show = vec![false; 5];
    assert!(handle_guess('l', &chars, &mut show));
    assert_eq!(show, vec![false, false, true, false, false]);
    assert!(handle_guess('l', &chars, &mut show));
    assert_eq!(show, vec![false, false, true, true, false]);
    assert!(!handle_guess('l', &chars, &mut show));
    assert!(!handle_guess('z', &chars, &mut show));
}

#[test]
fn test_check_win() {
    assert!(checkWin(&vec![true, true]));
    assert!(!checkWin(&vec![true, false]));
    assert!(checkWin(&vec![]));
}

#[test]
fn test_pick_a_random_word() {
    assert_eq!(pick_a_random_word(&vec![]), None);
    let words = vec!["only".to_string()];
    assert_eq!(pick_a_random_word(&words), Some("only".to_string()));
    let many = vec!["a".to_string(), "b".to_string(), "c".to_string()];
    let picked = pick_a_random_word(&many).unwrap();
    assert!(many.contains(&picked));
}

#[test]
fn test_linked_list_push_pop() {
    let mut list: LinkedList<u32> = LinkedList::new();
    assert!(list.is_empty());
    assert_eq!(list.get_size(), 0);
    for i in 1..12 {
        list.push_front(i);
    }
    assert_eq!(list.get_size(), 11);
    assert_eq!(list.pop_front(), Some(11));
    assert_eq!(list.get_size(), 10);
    assert!(!list.is_empty());
}

#[test]
fn test_linked_list_iterator() {
    let mut ls: LinkedList<i32> = LinkedList::new();
    ls.push_front(10);
    ls.push_front(9);
    ls.push_front(8);
    ls.push_front(7);
    let mut it = LinkedListIterator::new(&ls);
    let mut seen = Vec::new();
    while let Some(v) = it.next() {
        seen.push(*v);
    }
    assert_eq!(seen, vec![7, 8, 9, 10]);
    assert_eq!(ls.get_size(), 4);
}

#[test]
fn test_linked_list_pop_empty() {
    let mut list: LinkedList<String> = LinkedList::new();
    assert_eq!(list.pop_front(), None);
}

#[test]
fn test_count_words() {
    let line: Vec<char> = "the quick  brown fox".chars().collect();
    assert_eq!(count_words(&line), 4);
    let blank_line: Vec<char> = "   \t ".chars().collect();
    assert_eq!(count_words(&blank_line), 0);
    let empty: Vec<char> = vec![];
    assert_eq!(count_words(&empty), 0);
}

#[test]
fn test_count_text() {
    let lines: Vec<Vec<char>> = vec![
        "one two".chars().collect(),
        "".chars().collect(),
        "three".chars().collect(),
    ];
    let (line_cnt, word_cnt, char_cnt) = count_text(&lines).expect("totals fit");
    assert_eq!(line_cnt, 3);
    assert_eq!(word_cnt, 3);
    assert_eq!(char_cnt, 12);
}

#[test]
fn test_rate_limiter_tokens_run_out() {
    let mut limiter = RateLimiter::new(3);
    assert_eq!(limiter.rate(), 3);
    assert!(limiter.acquire(0));
    assert!(limiter.acquire(0));
    assert!(limiter.acquire(0));
    assert!(!limiter.acquire(0));
    // One minute refills the bucket completely (and caps at the rate).
    assert!(limiter.acquire(60));
    assert!(limiter.acquire(0));
    assert!(limiter.acquire(0));
    assert!(!limiter.acquire(0));
    // 20 seconds at 3 per minute earns exactly one token; 19 earn none.
    assert!(limiter.acquire(20));
    assert!(!limiter.acquire(19));
}

#[test]
fn test_lookup_bp_finds_by_address() {
    let table = vec![
        Breakpoint { addr: 0x10, orig_byte: 0x55 },
        Breakpoint { addr: 0x20, orig_byte: 0x66 },
    ];
    assert_eq!(lookup_bp(&table, 0x20), Some(Breakpoint { addr: 0x20, orig_byte: 0x66 }));
    assert_eq!(lookup_bp(&table, 0x30), None);
}

#[test]
fn test_failed_patch_is_not_recorded() {
    // No process can carry this pid, so every memory patch fails; a failed
    // patch must never be recorded as an armed breakpoint, and every
    // pending address lands on the skip report with its errno.
    let (mut inf, skipped) = Inferior::new(i32::MAX, &vec![0x1000, 0x3000]);
    assert_eq!(inf.pid(), i32::MAX);
    assert!(inf.hint_breakpoint(0x1000).is_none());
    assert_eq!(skipped.len(), 2);
    assert_eq!(skipped[0].0, 0x1000);
    assert_ne!(skipped[0].1, 0);
    assert_eq!(skipped[1].0, 0x3000);
    assert!(inf.add_bp(0x2000).is_err());
    assert!(inf.hint_breakpoint(0x2000).is_none());
}

#[test]
fn test_decode_wait_variants() {
    // The decode from a raw wait outcome to a status, variant by variant:
    // a normal exit with code 0 comes back as exactly Exited(0).
    assert_eq!(decode_wait(RawWait::Exited(0), 7), Ok(Status::Exited(0)));
    assert_eq!(decode_wait(RawWait::Exited(3), 7), Ok(Status::Exited(3)));
    assert_eq!(decode_wait(RawWait::Signaled(9), 7), Ok(Status::Signaled(9)));
    assert_eq!(decode_wait(RawWait::Stopped(5), 0x4011a0), Ok(Status::Stopped(5, 0x4011a0)));
    assert_eq!(decode_wait(RawWait::Other, 7), Err(TraceError::UnexpectedWait));
}

#[test]
fn test_handle_guess_with_longer_table() {
    // The mask table may be longer than the word; extra entries are
    // untouched.
    let chars: Vec<char> = "ab".chars().collect();
    let mut show = vec![false, false, false, false];
    assert!(handle_guess('b', &chars, &mut show));
    assert_eq!(show, vec![false, true, false, false]);
    assert_eq!(get_masked_secret_word(&chars, &show), "_b");
}

#[test]
fn test_process_record() {
    let p = Process::new(18042, 17996, "bash".to_string());
    assert_eq!(p.pid, 18042);
    assert_eq!(p.ppid, 17996);
    assert_eq!(p.command, "bash");
}

#[test]
fn test_list_fds_parses_directory_names() {
    let p = Process::new(1, 0, "init".to_string());
    let names = vec!["0".to_string(), "1".to_string(), "2".to_string(), "45".to_string()];
    assert_eq!(p.list_fds(&names), Some(vec![0, 1, 2, 45]));
    let bad = vec!["0".to_string(), "socket".to_string()];
    assert_eq!(p.list_fds(&bad), None);
}

#[test]
fn test_list_open_files_pairs_descriptors() {
    let p = Process::new(1, 0, "init".to_string());
    let table = vec![
        (0, OpenFile { name: "tty".to_string(), access_mode: "rw".to_string(), cursor: 0 }),
        (4, OpenFile { name: "log".to_string(), access_mode: "w".to_string(), cursor: 128 }),
    ];
    let fds = Some(vec![4, 0]);
    let open = p.list_open_files(&fds, &table).expect("all descriptors known");
    assert_eq!(open.len(), 2);
    assert_eq!(open[0].0, 4);
    assert_eq!(open[0].1.name, "log");
    assert_eq!(open[0].1.cursor, 128);
    assert_eq!(open[1].0, 0);
    assert_eq!(open[1].1.name, "tty");
    // A descriptor with no recorded file makes the information unavailable.
    assert_eq!(p.list_open_files(&Some(vec![0, 7]), &table).map(|v| v.len()), None);
    // Unknown descriptors propagate.
    assert!(p.list_open_files(&None, &table).is_none());
}
