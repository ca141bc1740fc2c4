use demongrep::chunking::{chunk_definitions, line_slice, line_window_chunks, split_lines, Definition};
use demongrep::extractor::ChunkKind;

#[test]
fn split_lines_round_trips() {
    let src = "fn a() {}\n\nfn b() {}\n";
    let lines = split_lines(src);
    assert_eq!(lines, vec!["fn a() {}", "", "fn b() {}", ""]);
    assert_eq!(lines.join("\n"), src);
    assert_eq!(split_lines(""), vec![""]);
}

#[test]
fn chunk_content_is_the_line_slice() {
    let src = "l1\nl2\nl3\nl4\nl5\nl6\nl7";
    let lines = split_lines(src);
    assert_eq!(line_slice(&lines, 2, 4), "l2\nl3\nl4");
    let chunks = line_window_chunks("x.rs", &lines, 3, 2000, 1);
    let spans: Vec<(usize, usize)> = chunks.iter().map(|c| (c.start_line, c.end_line)).collect();
    assert_eq!(spans, vec![(1, 3), (3, 5), (5, 7)]);
    for c in &chunks {
        let expected = src.split('\n').collect::<Vec<_>>()[c.start_line - 1..c.end_line].join("\n");
        assert_eq!(c.content, expected);
        assert_eq!(c.kind, ChunkKind::Block);
        assert_eq!(c.path, "x.rs");
    }
}

#[test]
fn short_file_is_one_chunk() {
    let lines = split_lines("only");
    let chunks = line_window_chunks("y.rs", &lines, 75, 2000, 10);
    assert_eq!(chunks.len(), 1);
    assert_eq!(chunks[0].content, "only");
    assert!(line_window_chunks("z.rs", &Vec::new(), 5, 2000, 1).is_empty());
}

#[test]
fn definitions_become_chunks_with_their_metadata() {
    let src = "use x;\nfn a() {\n  1\n}\nstruct B {\n  f: u8,\n  g: u8,\n  h: u8,\n}";
    let lines = split_lines(src);
    let defs = vec![
        Definition { start_line: 2, end_line: 4, kind: ChunkKind::Function, signature: Some("fn a()".to_string()), context: vec![] },
        Definition {
            start_line: 5,
            end_line: 9,
            kind: ChunkKind::Struct,
            signature: Some("struct B".to_string()),
            context: vec!["Module: m".to_string()],
        },
    ];
    let chunks = chunk_definitions("m.rs", &lines, &defs, 3, 2000, 1);
    let spans: Vec<(usize, usize)> = chunks.iter().map(|c| (c.start_line, c.end_line)).collect();
    assert_eq!(spans, vec![(2, 4), (5, 7), (7, 9)]);
    assert_eq!(chunks[0].content, "fn a() {\n  1\n}");
    assert_eq!(chunks[0].kind, ChunkKind::Function);
    assert_eq!(chunks[2].kind, ChunkKind::Struct);
    assert_eq!(chunks[2].signature, Some("struct B".to_string()));
    assert_eq!(chunks[2].context, vec!["Module: m".to_string()]);
    assert_eq!(chunks[2].content, "  g: u8,\n  h: u8,\n}");
}

#[test]
fn file_without_definitions_is_anchored() {
    let lines = split_lines("# title\ntext");
    let chunks = chunk_definitions("README.md", &lines, &vec![], 75, 2000, 10);
    assert_eq!(chunks.len(), 1);
    assert_eq!(chunks[0].kind, ChunkKind::Anchor);
    assert_eq!(chunks[0].content, "# title\ntext");
    assert_eq!((chunks[0].start_line, chunks[0].end_line), (1, 2));
}

#[test]
fn windows_respect_the_character_cap() {
    // Lines of 9 characters: two of them joined take 19 characters.
    let lines = split_lines("aaaaaaaaa\nbbbbbbbbb\nccccccccc\nddddddddd");
    let chunks = line_window_chunks("w.rs", &lines, 3, 19, 1);
    let spans: Vec<(usize, usize)> = chunks.iter().map(|c| (c.start_line, c.end_line)).collect();
    // Windows of two lines overlapping by one.
    assert_eq!(spans, vec![(1, 2), (2, 3), (3, 4)]);
    for c in &chunks {
        assert!(c.content.chars().count() <= 19);
    }
    // A single line longer than the cap is kept whole.
    let long = split_lines("0123456789012345678901234");
    let one = line_window_chunks("l.rs", &long, 3, 10, 1);
    assert_eq!(one.len(), 1);
    assert_eq!(one[0].content, "0123456789012345678901234");
    // When windows shrink to one line, the next starts one line later.
    let tight = line_window_chunks("t.rs", &lines, 3, 9, 1);
    let spans: Vec<(usize, usize)> = tight.iter().map(|c| (c.start_line, c.end_line)).collect();
    assert_eq!(spans, vec![(1, 1), (2, 2), (3, 3), (4, 4)]);
}

#[test]
fn empty_text_makes_no_chunk() {
    let lines = split_lines("");
    assert!(chunk_definitions("e.rs", &lines, &vec![], 75, 2000, 10).is_empty());
    assert!(line_window_chunks("e.rs", &lines, 75, 2000, 10).is_empty());
    // Windows of a single empty line are left out too.
    let gaps = split_lines("a\n\n\nb");
    let chunks = line_window_chunks("g.rs", &gaps, 1, 2000, 0);
    let spans: Vec<(usize, usize)> = chunks.iter().map(|c| (c.start_line, c.end_line)).collect();
    assert_eq!(spans, vec![(1, 1), (4, 4)]);
    assert!(chunks.iter().all(|c| !c.content.is_empty() && c.string_literals.is_empty()));
}
