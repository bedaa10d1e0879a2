use rtools::selector::parse_num;
use rtools::selector::TakeValue::{PlusZero, TakeNum};
use rtools::tail::{
    count_lines_bytes, line_offset, tail_bytes, tail_files, tail_lines, FileTarget, TailOutput,
};

const ONE: &[u8] = "Öne line, four words.\r\n".as_bytes();
const TEN: &[u8] = b"one\ntwo\nthree\nfour\nfive\nsix\nseven\neight\nnine\nten\n";
const THREE: &[u8] = b"alpha\nbeta\ngamma\n";

fn target(name: &str, content: &[u8]) -> FileTarget {
    FileTarget { name: name.to_string(), content: Ok(content.to_vec()) }
}

fn failed(name: &str, failure: &str) -> FileTarget {
    FileTarget { name: name.to_string(), content: Err(failure.to_string()) }
}

#[test]
fn test_count_lines_bytes() {
    let res = count_lines_bytes(ONE);
    assert_eq!(res, (1, 24));

    let res = count_lines_bytes(TEN);
    assert_eq!(res, (10, 49));
}

#[test]
fn count_lines_bytes_edges() {
    assert_eq!(count_lines_bytes(b""), (0, 0));
    assert_eq!(count_lines_bytes(b"\n"), (1, 1));
    assert_eq!(count_lines_bytes(b"a"), (1, 1));
    assert_eq!(count_lines_bytes(b"a\nb"), (2, 3));
    assert_eq!(count_lines_bytes(b"\n\n\n"), (3, 3));
}

#[test]
fn line_offsets() {
    assert_eq!(line_offset(THREE, 0), 0);
    assert_eq!(line_offset(THREE, 1), 6);
    assert_eq!(line_offset(THREE, 2), 11);
    assert_eq!(line_offset(THREE, 3), 17);
    assert_eq!(line_offset(THREE, 9), 17);
    assert_eq!(line_offset(b"", 2), 0);
}

#[test]
fn tail_lines_from_end_and_start() {
    let (lines, _) = count_lines_bytes(TEN);
    assert_eq!(tail_lines(TEN, &TakeNum(-3), lines), b"eight\nnine\nten\n".to_vec());
    assert_eq!(tail_lines(TEN, &TakeNum(8), lines), b"eight\nnine\nten\n".to_vec());
    assert_eq!(tail_lines(TEN, &TakeNum(11), lines), Vec::<u8>::new());
    assert_eq!(tail_lines(TEN, &TakeNum(0), lines), Vec::<u8>::new());
    // Terminators are kept as they are, a carriage return included.
    let text = b"a\r\nb\r\nc";
    let (lines, _) = count_lines_bytes(text);
    assert_eq!(tail_lines(text, &TakeNum(-2), lines), b"b\r\nc".to_vec());
}

#[test]
fn scenario_bare_count_larger_than_file_emits_everything() {
    let sel = parse_num("10").unwrap();
    assert_eq!(sel, TakeNum(-10));
    let (lines, _) = count_lines_bytes(THREE);
    assert_eq!(lines, 3);
    assert_eq!(tail_lines(THREE, &sel, lines), THREE.to_vec());
}

#[test]
fn scenario_plus_zero() {
    let sel = parse_num("+0").unwrap();
    assert_eq!(sel, PlusZero);
    assert_eq!(tail_lines(b"", &sel, 0), Vec::<u8>::new());
    assert_eq!(tail_bytes(b"", &sel, 0), Vec::<u8>::new());
    let (lines, bytes) = count_lines_bytes(THREE);
    assert_eq!(tail_lines(THREE, &sel, lines), THREE.to_vec());
    assert_eq!(tail_bytes(THREE, &sel, bytes), THREE.to_vec());
}

#[test]
fn scenario_byte_count_larger_than_file() {
    let content = b"abc";
    let (_, bytes) = count_lines_bytes(content);
    assert_eq!(bytes, 3);
    let sel = TakeNum(-5);
    assert_eq!(rtools::selector::get_start_index(&sel, bytes), Some(0));
    assert_eq!(tail_bytes(content, &sel, bytes), b"abc".to_vec());
}

#[test]
fn tail_bytes_cuts_inside_lines() {
    let (_, bytes) = count_lines_bytes(TEN);
    assert_eq!(tail_bytes(TEN, &TakeNum(-4), bytes), b"ten\n".to_vec());
    assert_eq!(tail_bytes(TEN, &TakeNum(47), bytes), b"en\n".to_vec());
    assert_eq!(tail_bytes(TEN, &TakeNum(50), bytes), Vec::<u8>::new());
}

#[test]
fn scenario_two_files_with_headers() {
    let targets = vec![target("file1", b"x\n"), target("file2", b"y\n")];
    let out = tail_files(&targets, &TakeNum(-10), &None, false);
    assert_eq!(out.stdout, b"==> file1 <==\nx\n\n==> file2 <==\ny\n".to_vec());
    assert!(out.diagnostics.is_empty());

    let quiet = tail_files(&targets, &TakeNum(-10), &None, true);
    assert_eq!(quiet.stdout, b"x\ny\n".to_vec());
}

#[test]
fn single_file_has_no_header() {
    let targets = vec![target("only", TEN)];
    let out = tail_files(&targets, &TakeNum(-1), &None, false);
    assert_eq!(out.stdout, b"ten\n".to_vec());
}

#[test]
fn scenario_unreadable_file_among_three() {
    let targets = vec![
        target("a.txt", b"1\n"),
        failed("missing.txt", "No such file or directory (os error 2)"),
        target("c.txt", b"3\n"),
    ];
    let TailOutput { stdout, diagnostics } = tail_files(&targets, &TakeNum(-10), &None, false);
    assert_eq!(stdout, b"==> a.txt <==\n1\n\n==> c.txt <==\n3\n".to_vec());
    assert_eq!(diagnostics, vec!["missing.txt: No such file or directory (os error 2)".to_string()]);
}

#[test]
fn byte_mode_replaces_line_mode() {
    let targets = vec![target("t", TEN)];
    let out = tail_files(&targets, &TakeNum(-1), &Some(TakeNum(-2)), false);
    assert_eq!(out.stdout, b"n\n".to_vec());
}

#[test]
fn running_twice_gives_the_same_output() {
    let targets = vec![target("one", ONE), target("ten", TEN), failed("gone", "denied")];
    let first = tail_files(&targets, &TakeNum(-2), &None, false);
    let second = tail_files(&targets, &TakeNum(-2), &None, false);
    assert_eq!(first.stdout, second.stdout);
    assert_eq!(first.diagnostics, second.diagnostics);
}
