use sftp_gateway::sftp::stream::{AsyncSftp, StreamAction, StreamEvent, StreamState, CHUNK_SIZE};

/// Streams `file` through a fresh stream: the consumer asks for `capacity`
/// bytes each time and every remote read returns at most `most` bytes.
/// Returns what was delivered, and the number of reads asked for.
fn download(file: &[u8], capacity: usize, most: usize) -> (Vec<u8>, usize) {
    let mut stream = AsyncSftp::new();
    let mut delivered = Vec::new();
    let mut position = 0;
    let mut reads = 0;
    loop {
        let limit = match stream.poll_read(StreamEvent::Demand { capacity }) {
            StreamAction::Read { limit } => limit,
            StreamAction::End => break,
            _ => panic!("a demand is answered with a read or the end"),
        };
        reads += 1;
        assert!(limit <= capacity && limit <= CHUNK_SIZE);
        let n = limit.min(most).min(file.len() - position);
        let data = &file[position..position + n];
        position += n;
        match stream.poll_read(StreamEvent::Read { data }) {
            StreamAction::Deliver { data } => delivered.extend_from_slice(data),
            StreamAction::End => break,
            _ => panic!("a read is answered with bytes or the end"),
        }
        assert_eq!(stream.state(), StreamState::Draining);
        assert!(matches!(stream.poll_read(StreamEvent::Drained), StreamAction::Wait));
    }
    assert_eq!(stream.state(), StreamState::Closed);
    (delivered, reads)
}

fn sample(n: usize) -> Vec<u8> {
    (0..n).map(|i| (i * 31 + 7) as u8).collect()
}

#[test]
fn a_new_stream_is_idle() {
    assert_eq!(AsyncSftp::new().state(), StreamState::Idle);
}

#[test]
fn a_chunk_is_4096_bytes() {
    assert_eq!(CHUNK_SIZE, 4096);
}

#[test]
fn a_file_of_ten_bytes_arrives_whole() {
    let file = b"0123456789".to_vec();
    let (delivered, reads) = download(&file, 8192, usize::MAX);
    assert_eq!(delivered, file);
    assert_eq!(reads, 2);
}

#[test]
fn a_large_file_arrives_whole_and_in_order() {
    let file = sample(3 * CHUNK_SIZE + 123);
    let (delivered, reads) = download(&file, 1 << 20, usize::MAX);
    assert_eq!(delivered.len(), 3 * CHUNK_SIZE + 123);
    assert_eq!(delivered, file);
    assert_eq!(reads, 5);
}

#[test]
fn a_file_of_whole_chunks_arrives_whole() {
    let file = sample(2 * CHUNK_SIZE);
    let (delivered, reads) = download(&file, CHUNK_SIZE, usize::MAX);
    assert_eq!(delivered, file);
    assert_eq!(reads, 3);
}

#[test]
fn short_reads_do_not_lose_bytes() {
    let file = sample(1000);
    let (delivered, reads) = download(&file, 8192, 7);
    assert_eq!(delivered, file);
    assert_eq!(reads, 1000 / 7 + 1 + 1);
}

#[test]
fn a_small_consumer_gets_small_chunks() {
    let file = sample(100);
    let (delivered, reads) = download(&file, 1, usize::MAX);
    assert_eq!(delivered, file);
    assert_eq!(reads, 101);
}

#[test]
fn an_empty_file_ends_at_once() {
    let (delivered, reads) = download(&[], 8192, usize::MAX);
    assert!(delivered.is_empty());
    assert_eq!(reads, 1);
}

#[test]
fn a_read_is_never_larger_than_a_chunk() {
    let mut stream = AsyncSftp::new();
    match stream.poll_read(StreamEvent::Demand { capacity: usize::MAX }) {
        StreamAction::Read { limit } => assert_eq!(limit, 4096),
        _ => panic!("expected a read"),
    }
    assert_eq!(stream.state(), StreamState::Reading { limit: 4096 });
}

#[test]
fn a_read_is_never_larger_than_the_consumer_has_room_for() {
    let mut stream = AsyncSftp::new();
    match stream.poll_read(StreamEvent::Demand { capacity: 100 }) {
        StreamAction::Read { limit } => assert_eq!(limit, 100),
        _ => panic!("expected a read"),
    }
    let mut stream = AsyncSftp::new();
    match stream.poll_read(StreamEvent::Demand { capacity: 4096 }) {
        StreamAction::Read { limit } => assert_eq!(limit, 4096),
        _ => panic!("expected a read"),
    }
    let mut stream = AsyncSftp::new();
    match stream.poll_read(StreamEvent::Demand { capacity: 4097 }) {
        StreamAction::Read { limit } => assert_eq!(limit, 4096),
        _ => panic!("expected a read"),
    }
}

#[test]
fn a_consumer_without_room_is_told_to_wait() {
    let mut stream = AsyncSftp::new();
    assert!(matches!(stream.poll_read(StreamEvent::Demand { capacity: 0 }), StreamAction::Wait));
    assert_eq!(stream.state(), StreamState::Idle);
}

#[test]
fn nothing_is_read_before_the_consumer_asks() {
    let mut stream = AsyncSftp::new();
    assert_eq!(stream.state(), StreamState::Idle);
    // without a demand a read result is out of place and ends the stream
    assert!(matches!(stream.poll_read(StreamEvent::Read { data: b"abc" }), StreamAction::End));
    assert_eq!(stream.state(), StreamState::Closed);
}

#[test]
fn the_bytes_handed_on_are_the_bytes_read() {
    let mut stream = AsyncSftp::new();
    stream.poll_read(StreamEvent::Demand { capacity: 16 });
    match stream.poll_read(StreamEvent::Read { data: b"first" }) {
        StreamAction::Deliver { data } => assert_eq!(data, b"first"),
        _ => panic!("expected bytes"),
    }
    stream.poll_read(StreamEvent::Drained);
    stream.poll_read(StreamEvent::Demand { capacity: 16 });
    match stream.poll_read(StreamEvent::Read { data: b"2nd" }) {
        StreamAction::Deliver { data } => assert_eq!(data, b"2nd"),
        _ => panic!("expected bytes"),
    }
}

#[test]
fn a_failed_read_ends_the_stream() {
    let mut stream = AsyncSftp::new();
    stream.poll_read(StreamEvent::Demand { capacity: 4096 });
    stream.poll_read(StreamEvent::Read { data: &[1, 2, 3] });
    stream.poll_read(StreamEvent::Drained);
    stream.poll_read(StreamEvent::Demand { capacity: 4096 });
    assert!(matches!(stream.poll_read(StreamEvent::ReadFailed), StreamAction::End));
    assert_eq!(stream.state(), StreamState::Closed);
}

#[test]
fn after_a_failed_read_nothing_is_read_again() {
    let mut stream = AsyncSftp::new();
    stream.poll_read(StreamEvent::Demand { capacity: 4096 });
    stream.poll_read(StreamEvent::ReadFailed);
    for _ in 0..100 {
        assert!(matches!(
            stream.poll_read(StreamEvent::Demand { capacity: 4096 }),
            StreamAction::End
        ));
        assert_eq!(stream.state(), StreamState::Closed);
    }
    assert!(matches!(stream.poll_read(StreamEvent::Read { data: b"late" }), StreamAction::End));
    assert!(matches!(stream.poll_read(StreamEvent::Drained), StreamAction::End));
    assert!(matches!(stream.poll_read(StreamEvent::Abort), StreamAction::End));
    assert_eq!(stream.state(), StreamState::Closed);
}

#[test]
fn the_end_of_the_file_ends_the_stream() {
    let mut stream = AsyncSftp::new();
    stream.poll_read(StreamEvent::Demand { capacity: 4096 });
    assert!(matches!(stream.poll_read(StreamEvent::Read { data: &[] }), StreamAction::End));
    assert_eq!(stream.state(), StreamState::Closed);
    assert!(matches!(stream.poll_read(StreamEvent::Demand { capacity: 1 }), StreamAction::End));
}

#[test]
fn a_read_of_more_than_was_asked_for_ends_the_stream() {
    let mut stream = AsyncSftp::new();
    stream.poll_read(StreamEvent::Demand { capacity: 2 });
    assert!(matches!(stream.poll_read(StreamEvent::Read { data: b"abc" }), StreamAction::End));
    assert_eq!(stream.state(), StreamState::Closed);
}

#[test]
fn a_read_of_exactly_what_was_asked_for_is_handed_on() {
    let mut stream = AsyncSftp::new();
    stream.poll_read(StreamEvent::Demand { capacity: 3 });
    assert!(matches!(
        stream.poll_read(StreamEvent::Read { data: b"abc" }),
        StreamAction::Deliver { data: b"abc" }
    ));
}

#[test]
fn an_abort_closes_the_stream_in_every_state() {
    let mut idle = AsyncSftp::new();
    assert!(matches!(idle.poll_read(StreamEvent::Abort), StreamAction::End));
    assert_eq!(idle.state(), StreamState::Closed);

    let mut reading = AsyncSftp::new();
    reading.poll_read(StreamEvent::Demand { capacity: 10 });
    assert!(matches!(reading.poll_read(StreamEvent::Abort), StreamAction::End));
    assert_eq!(reading.state(), StreamState::Closed);

    let mut draining = AsyncSftp::new();
    draining.poll_read(StreamEvent::Demand { capacity: 10 });
    draining.poll_read(StreamEvent::Read { data: b"x" });
    assert!(matches!(draining.poll_read(StreamEvent::Abort), StreamAction::End));
    assert_eq!(draining.state(), StreamState::Closed);
}

#[test]
fn a_second_demand_while_reading_ends_the_stream() {
    let mut stream = AsyncSftp::new();
    stream.poll_read(StreamEvent::Demand { capacity: 10 });
    assert!(matches!(stream.poll_read(StreamEvent::Demand { capacity: 10 }), StreamAction::End));
    assert_eq!(stream.state(), StreamState::Closed);
}

#[test]
fn the_stream_is_idle_again_once_the_bytes_were_taken() {
    let mut stream = AsyncSftp::new();
    stream.poll_read(StreamEvent::Demand { capacity: 10 });
    stream.poll_read(StreamEvent::Read { data: b"x" });
    assert_eq!(stream.state(), StreamState::Draining);
    assert!(matches!(stream.poll_read(StreamEvent::Drained), StreamAction::Wait));
    assert_eq!(stream.state(), StreamState::Idle);
}
