use tiki_ingest::batch::{batch_lines, BatchStep, CsvBatcher};

/// Feeds all lines, then the end of input, and collects the chunks handed over.
fn run(size: usize, lines: &[&str]) -> Vec<Vec<String>> {
    let mut b = CsvBatcher::new(size);
    let mut out = Vec::new();
    for l in lines {
        match b.next(Some(l.to_string())) {
            BatchStep::ReadNext => {}
            BatchStep::Deliver(c) => out.push(c),
            BatchStep::Finish(_) => panic!("finished early"),
        }
    }
    match b.next(None) {
        BatchStep::Finish(Some(c)) => out.push(c),
        BatchStep::Finish(None) => {}
        _ => panic!("no finish"),
    }
    out
}

fn chunk(lines: &[&str]) -> Vec<String> {
    lines.iter().map(|s| s.to_string()).collect()
}

#[test]
fn empty_input_gives_no_chunk() {
    assert!(run(3, &[]).is_empty());
}

#[test]
fn header_only_gives_header_chunk() {
    assert_eq!(run(3, &["h"]), vec![chunk(&["h"])]);
}

#[test]
fn rows_below_limit_form_one_chunk() {
    assert_eq!(run(3, &["h", "a", "b", "c"]), vec![chunk(&["h", "a", "b", "c"])]);
}

#[test]
fn every_chunk_repeats_header_and_one_row_in_limit_plus_one_is_skipped() {
    let out = run(2, &["h", "1", "2", "3", "4", "5", "6", "7", "8"]);
    assert_eq!(
        out,
        vec![chunk(&["h", "1", "2"]), chunk(&["h", "4", "5"]), chunk(&["h", "7", "8"])]
    );
    // 8 rows, limit 2: 8 / 3 + 1 chunks holding 8 - 8 / 3 rows.
    assert_eq!(out.len(), 8 / 3 + 1);
    let rows: usize = out.iter().map(|c| c.len() - 1).sum();
    assert_eq!(rows, 8 - 8 / 3);
}

#[test]
fn trigger_line_at_end_leaves_header_chunk() {
    let out = run(2, &["h", "1", "2", "3"]);
    assert_eq!(out, vec![chunk(&["h", "1", "2"]), chunk(&["h"])]);
}

#[test]
fn zero_limit_gives_header_only_chunks() {
    let out = run(0, &["h", "1", "2"]);
    assert_eq!(out, vec![chunk(&["h"]), chunk(&["h"]), chunk(&["h"])]);
}

#[test]
fn steps_of_a_small_stream() {
    let mut b = CsvBatcher::new(1);
    assert!(matches!(b.next(Some("id,name".to_string())), BatchStep::ReadNext));
    assert!(matches!(b.next(Some("1,a".to_string())), BatchStep::ReadNext));
    match b.next(Some("2,b".to_string())) {
        BatchStep::Deliver(c) => assert_eq!(c, chunk(&["id,name", "1,a"])),
        _ => panic!("expected a chunk"),
    }
    assert!(matches!(b.next(Some("3,c".to_string())), BatchStep::ReadNext));
    match b.next(None) {
        BatchStep::Finish(Some(c)) => assert_eq!(c, chunk(&["id,name", "3,c"])),
        _ => panic!("expected the last chunk"),
    }
}

#[test]
fn batch_lines_matches_stepping() {
    let input = ["h", "1", "2", "3", "4", "5"];
    for size in 0..7 {
        let lines: Vec<String> = input.iter().map(|s| s.to_string()).collect();
        assert_eq!(batch_lines(size, lines), run(size, &input), "size {}", size);
    }
    assert!(batch_lines(4, vec![]).is_empty());
}

#[test]
fn batch_lines_limit_three() {
    let lines: Vec<String> = ["id,v", "a,1", "b,2", "c,3", "d,4", "e,5"]
        .iter()
        .map(|s| s.to_string())
        .collect();
    assert_eq!(
        batch_lines(3, lines),
        vec![chunk(&["id,v", "a,1", "b,2", "c,3"]), chunk(&["id,v", "e,5"])]
    );
}
