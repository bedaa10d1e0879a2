use rtools::selector::get_start_index;
use rtools::selector::TakeValue::TakeNum;
use rtools::stream::{LineCounter, LineSkipper};
use rtools::tail::{count_lines_bytes, diagnostic_line, file_header, tail_lines};

const TEN: &[u8] = b"one\ntwo\nthree\nfour\nfive\nsix\nseven\neight\nnine\nten";

fn streamed_lines(content: &[u8], start: u64, chunk: usize) -> Vec<u8> {
    let mut skipper = LineSkipper::new(start);
    let mut out = Vec::new();
    for piece in content.chunks(chunk) {
        let from = skipper.feed(piece);
        out.extend_from_slice(&piece[from..]);
    }
    out
}

#[test]
fn counter_over_chunks_matches_one_pass() {
    for size in 1..12 {
        let mut counter = LineCounter::new();
        for piece in TEN.chunks(size) {
            counter.feed(piece);
        }
        assert_eq!(counter.totals(), count_lines_bytes(TEN));
        assert_eq!(counter.totals(), (10, 48));
        assert_eq!(counter.bytes_seen(), 48);
    }
    assert_eq!(LineCounter::new().totals(), (0, 0));
}

#[test]
fn skipper_over_chunks_matches_one_pass() {
    let (lines, _) = count_lines_bytes(TEN);
    let start = get_start_index(&TakeNum(-3), lines).unwrap();
    assert_eq!(start, 7);
    for size in 1..12 {
        assert_eq!(streamed_lines(TEN, start, size), b"eight\nnine\nten".to_vec());
        assert_eq!(streamed_lines(TEN, start, size), tail_lines(TEN, &TakeNum(-3), lines));
        assert_eq!(streamed_lines(TEN, 0, size), TEN.to_vec());
        assert_eq!(streamed_lines(TEN, 20, size), Vec::<u8>::new());
    }
}

#[test]
fn headers_and_diagnostics() {
    let name = "file2".to_string();
    assert_eq!(file_header(&name, 0, 2, false), b"==> file2 <==\n".to_vec());
    assert_eq!(file_header(&name, 1, 2, false), b"\n==> file2 <==\n".to_vec());
    assert_eq!(file_header(&name, 1, 2, true), Vec::<u8>::new());
    assert_eq!(file_header(&name, 0, 1, false), Vec::<u8>::new());
    assert_eq!(
        diagnostic_line(&"gone.txt".to_string(), &"Permission denied (os error 13)".to_string()),
        "gone.txt: Permission denied (os error 13)"
    );
}
