use carbonado_node::segment::{segment_all, Inbound, Segmenter, Step, SEGMENT_SIZE};

fn patterned(len: usize, seed: u8) -> Vec<u8> {
    (0..len).map(|i| (i as u8).wrapping_mul(31).wrapping_add(seed)).collect()
}

/// Drives a segmenter the way a pull-based pipeline does, one whole chunk per
/// read, and collects what it emits.
fn run(chunks: &[Vec<u8>]) -> Vec<Vec<u8>> {
    let mut machine = Segmenter::new();
    let mut next = 0;
    let mut segments = Vec::new();
    loop {
        let mut step = machine.pull();
        loop {
            match step {
                Step::Read => {
                    assert!(machine.needs_input());
                    step = if next < chunks.len() {
                        next += 1;
                        machine.advance(Inbound::Chunk(&chunks[next - 1]))
                    } else {
                        machine.advance(Inbound::End)
                    };
                }
                other => {
                    step = other;
                    break;
                }
            }
        }
        match step {
            Step::Emit(segment) => segments.push(segment),
            Step::Done => return segments,
            Step::Abort => panic!("no read failed"),
            Step::Read => unreachable!(),
        }
    }
}

#[test]
fn three_chunks_make_one_full_and_one_short_segment() {
    let chunks = vec![patterned(600_000, 1), patterned(600_000, 2), patterned(200_000, 3)];
    let segments = segment_all(&chunks);
    assert_eq!(segments.len(), 2);
    assert_eq!(segments[0].len(), 1_048_576);
    assert_eq!(segments[1].len(), 351_424);
    assert_eq!(segments.concat(), chunks.concat());
}

#[test]
fn pulling_three_chunks_gives_the_same_two_segments() {
    let chunks = vec![patterned(600_000, 1), patterned(600_000, 2), patterned(200_000, 3)];
    let segments = run(&chunks);
    assert_eq!(segments.len(), 2);
    assert_eq!(segments[0].len(), 1_048_576);
    assert_eq!(segments[1].len(), 351_424);
    assert_eq!(segments, segment_all(&chunks));
}

#[test]
fn segment_size_is_one_mebibyte() {
    assert_eq!(SEGMENT_SIZE, 1_048_576);
}

#[test]
fn an_empty_stream_has_no_segments() {
    assert!(segment_all(&[]).is_empty());
    assert!(segment_all(&[Vec::new(), Vec::new()]).is_empty());
    assert!(run(&[]).is_empty());
}

#[test]
fn a_short_stream_is_one_short_segment() {
    let chunks = vec![vec![7u8, 8, 9]];
    assert_eq!(segment_all(&chunks), vec![vec![7u8, 8, 9]]);
    assert_eq!(run(&chunks), vec![vec![7u8, 8, 9]]);
}

#[test]
fn an_exact_multiple_has_no_short_segment() {
    let chunks = vec![patterned(SEGMENT_SIZE, 5), patterned(SEGMENT_SIZE, 6)];
    let segments = segment_all(&chunks);
    assert_eq!(segments.len(), 2);
    assert_eq!(segments[0], chunks[0]);
    assert_eq!(segments[1], chunks[1]);
    assert_eq!(run(&chunks), segments);
}

#[test]
fn one_byte_over_a_multiple_adds_a_segment_of_one_byte() {
    let chunks = vec![patterned(SEGMENT_SIZE + 1, 9)];
    let segments = segment_all(&chunks);
    assert_eq!(segments.len(), 2);
    assert_eq!(segments[0].len(), SEGMENT_SIZE);
    assert_eq!(segments[1], vec![chunks[0][SEGMENT_SIZE]]);
}

#[test]
fn the_count_is_the_length_over_the_segment_size_rounded_up() {
    for total in [1usize, SEGMENT_SIZE - 1, SEGMENT_SIZE, 2 * SEGMENT_SIZE + 17, 3 * SEGMENT_SIZE] {
        let data = patterned(total, 3);
        let chunks: Vec<Vec<u8>> = data.chunks(300_001).map(|c| c.to_vec()).collect();
        let segments = segment_all(&chunks);
        assert_eq!(segments.len(), (total + SEGMENT_SIZE - 1) / SEGMENT_SIZE);
        for segment in &segments[..segments.len() - 1] {
            assert_eq!(segment.len(), SEGMENT_SIZE);
        }
        let last = segments.last().unwrap().len();
        assert_eq!(last < SEGMENT_SIZE, total % SEGMENT_SIZE != 0);
        assert_eq!(segments.concat(), data);
        assert_eq!(run(&chunks), segments);
    }
}

#[test]
fn a_chunk_of_several_segments_is_emitted_without_further_reads() {
    let chunk = patterned(3 * SEGMENT_SIZE + 10, 4);
    let mut machine = Segmenter::new();
    assert!(matches!(machine.pull(), Step::Read));
    let first = match machine.advance(Inbound::Chunk(&chunk)) {
        Step::Emit(segment) => segment,
        _ => panic!("a full segment was buffered"),
    };
    assert_eq!(first, chunk[..SEGMENT_SIZE].to_vec());
    assert_eq!(machine.buffered_len(), 2 * SEGMENT_SIZE + 10);
    assert!(!machine.needs_input());
    let second = match machine.pull() {
        Step::Emit(segment) => segment,
        _ => panic!("a full segment was buffered"),
    };
    assert_eq!(second, chunk[SEGMENT_SIZE..2 * SEGMENT_SIZE].to_vec());
    assert!(matches!(machine.pull(), Step::Emit(_)));
    assert_eq!(machine.buffered_len(), 10);
    assert!(matches!(machine.pull(), Step::Read));
    let last = match machine.advance(Inbound::End) {
        Step::Emit(segment) => segment,
        _ => panic!("ten bytes were left"),
    };
    assert_eq!(last, chunk[3 * SEGMENT_SIZE..].to_vec());
    assert!(matches!(machine.pull(), Step::Done));
    assert!(matches!(machine.pull(), Step::Done));
}

#[test]
fn a_failed_read_ends_the_stream_without_a_short_segment() {
    let mut machine = Segmenter::new();
    assert!(matches!(machine.pull(), Step::Read));
    assert!(matches!(machine.advance(Inbound::Chunk(&[1, 2, 3])), Step::Read));
    assert!(matches!(machine.advance(Inbound::Failure), Step::Abort));
    assert!(!machine.needs_input());
    assert!(matches!(machine.pull(), Step::Abort));
}

#[test]
fn empty_chunks_change_nothing() {
    let chunks = vec![Vec::new(), vec![1u8, 2], Vec::new(), vec![3u8], Vec::new()];
    assert_eq!(segment_all(&chunks), vec![vec![1u8, 2, 3]]);
    assert_eq!(run(&chunks), vec![vec![1u8, 2, 3]]);
}
