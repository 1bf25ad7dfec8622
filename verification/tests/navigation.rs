use byte_stream::ByteStream;

#[test]
fn has_bytes() {
    let c = ByteStream::new(b"stream data");

    assert!(c.has_bytes(11));
    assert!(!c.has_bytes(12));
}

#[test]
fn index() {
    let mut c = ByteStream::new(b"stream data");

    assert_eq!(c.stream_index, 0);

    c.advance();

    assert_eq!(c.stream_index, 1);

    c.advance();

    assert_eq!(c.stream_index, 2);

    c.advance();

    assert_eq!(c.stream_index, 3);
}

#[test]
fn bs_is_eos() {
    let mut c = ByteStream::new(b"abc");

    assert!(!c.at_end());

    c.advance();

    assert!(!c.at_end());

    c.advance();

    assert!(!c.at_end());

    c.advance();

    assert!(c.at_end());
}

#[test]
fn jump() {
    let mut c = ByteStream::new(b"stream");

    c.jump(1);
    c.advance();

    assert_eq!(c.byte, b't');

    c.jump(1);
    c.advance();

    assert_eq!(c.byte, b'e');

    c.jump(1);
    c.advance();

    assert_eq!(c.byte, b'm');
}

#[test]
fn mark() {
    let mut c = ByteStream::new(b"stream");

    c.mark();

    assert_eq!(c.mark_index, 0);

    c.advance();

    assert_eq!(c.slice(), b"s");

    c.advance();
    c.advance();
    c.advance();

    assert_eq!(c.slice(), b"stre");
}

#[test]
fn peek() {
    let mut c = ByteStream::new(b"stream");

    c.mark();

    assert_eq!(c.peek(6), b"stream");

    c.advance();

    assert_eq!(c.peek(5), b"tream");

    c.advance();

    assert_eq!(c.peek(4), b"ream");

    c.advance();

    assert_eq!(c.peek(3), b"eam");

    c.advance();

    assert_eq!(c.peek(2), b"am");

    c.advance();

    assert_eq!(c.peek(1), b"m");
}

#[test]
fn remaining() {
    let mut c = ByteStream::new(b"stream");

    assert_eq!(c.remaining(), b"stream");

    c.advance();

    assert_eq!(c.remaining(), b"tream");

    c.advance();

    assert_eq!(c.remaining(), b"ream");

    c.advance();

    assert_eq!(c.remaining(), b"eam");

    c.advance();

    assert_eq!(c.remaining(), b"am");

    c.advance();

    assert_eq!(c.remaining(), b"m");

    c.advance();

    assert_eq!(c.remaining(), b"");
}

#[test]
fn replay() {
    let mut c = ByteStream::new(b"stream");

    c.mark();
    c.advance();
    c.advance();
    c.advance();

    assert_eq!(c.slice(), b"str");

    c.replay();
    c.replay();

    assert_eq!(c.slice(), b"s");
}

#[test]
fn rewind() {
    let mut c = ByteStream::new(b"stream");

    c.mark();
    c.advance();
    c.advance();
    c.advance();
    c.advance();
    c.advance();
    c.advance();

    assert_eq!(c.slice(), b"stream");

    c.rewind(1);

    assert_eq!(c.slice(), b"strea");

    c.rewind(1);

    assert_eq!(c.slice(), b"stre");

    c.rewind(1);

    assert_eq!(c.slice(), b"str");

    c.rewind(1);

    assert_eq!(c.slice(), b"st");

    c.rewind(1);

    assert_eq!(c.slice(), b"s");

    c.rewind(1);

    assert_eq!(c.slice(), b"");
}

#[test]
fn rewind_to() {
    let mut c = ByteStream::new(b"stream");

    c.mark();
    c.advance();
    c.advance();
    c.advance();
    c.advance();
    c.advance();
    c.advance();

    assert_eq!(c.slice(), b"stream");

    c.rewind_to(3);

    assert_eq!(c.slice(), b"str");

    c.rewind_to(0);

    assert_eq!(c.slice(), b"");
}

#[test]
fn slice_length() {
    let mut c = ByteStream::new(b"stream");

    c.mark();

    assert_eq!(0, c.slice_length());
    assert_eq!(c.slice(), b"");

    c.advance();

    assert_eq!(1, c.slice_length());
    assert_eq!(c.slice(), b"s");

    c.advance();

    assert_eq!(2, c.slice_length());
    assert_eq!(c.slice(), b"st");

    c.advance();

    assert_eq!(3, c.slice_length());
    assert_eq!(c.slice(), b"str");

    c.advance();

    assert_eq!(4, c.slice_length());
    assert_eq!(c.slice(), b"stre");

    c.advance();

    assert_eq!(5, c.slice_length());
    assert_eq!(c.slice(), b"strea");

    c.advance();

    assert_eq!(6, c.slice_length());
    assert_eq!(c.slice(), b"stream");
}

#[test]
fn new_starts_at_the_beginning() {
    let c = ByteStream::new(b"stream");
    assert_eq!(c.byte, 0);
    assert_eq!(c.mark_index, 0);
    assert_eq!(c.stream_index, 0);
    assert_eq!(c.stream, b"stream");
    assert_eq!(c.available(), 6);
    assert!(!c.at_end());
    assert!(ByteStream::new(b"").at_end());
}

#[test]
fn advance_counts_and_keeps_the_last_byte() {
    let buffer = b"stream data";
    for k in 1..=buffer.len() {
        let mut c = ByteStream::new(buffer);
        for _ in 0..k {
            c.advance();
        }
        assert_eq!(c.stream_index, k);
        assert_eq!(c.byte, buffer[k - 1]);
        assert_eq!(c.available(), buffer.len() - k);
        assert_eq!(c.mark_index, 0);
    }
}

#[test]
fn mark_then_collect_fixed_length_gives_the_slice() {
    let buffer = b"stream data";
    for at in 0..=buffer.len() {
        for n in 0..=buffer.len() - at {
            let mut c = ByteStream::new(buffer);
            c.jump(at);
            c.mark();
            c.collect_fixed_length(n);
            assert_eq!(c.slice(), &buffer[at..at + n]);
        }
    }
}

#[test]
fn rewind_then_jump_restores_the_position() {
    let mut c = ByteStream::new(b"stream data");
    c.advance();
    c.advance();
    c.advance();
    c.advance();
    c.advance();
    for k in 0..=5 {
        c.rewind(k);
        assert_eq!(c.stream_index, 5 - k);
        c.jump(k);
        assert_eq!(c.stream_index, 5);
        assert_eq!(c.byte, b'a');
    }
}

#[test]
fn available_and_has_bytes_follow_the_position() {
    let mut c = ByteStream::new(b"stream");
    c.jump(4);
    assert_eq!(c.available(), 2);
    assert!(c.has_bytes(0));
    assert!(c.has_bytes(2));
    assert!(!c.has_bytes(3));
    assert!(!c.has_bytes(usize::MAX));
    c.jump(2);
    assert_eq!(c.available(), 0);
    assert!(c.has_bytes(0));
    assert!(!c.has_bytes(1));
}

#[test]
fn jump_and_rewind_leave_the_current_byte() {
    let mut c = ByteStream::new(b"stream");
    c.advance();
    c.jump(3);
    assert_eq!(c.byte, b's');
    assert_eq!(c.stream_index, 4);
    c.rewind(2);
    assert_eq!(c.byte, b's');
    assert_eq!(c.stream_index, 2);
    c.rewind_to(6);
    assert_eq!(c.byte, b's');
    assert!(c.at_end());
    c.replay();
    c.advance();
    assert_eq!(c.byte, b'm');
}

#[test]
fn mark_at_sets_the_start_of_the_slice() {
    let mut c = ByteStream::new(b"stream data");
    c.jump(6);
    c.mark_at(2);
    assert_eq!(c.mark_index, 2);
    assert_eq!(c.slice(), b"ream");
    assert_eq!(c.slice_length(), 4);
    assert_eq!(c.slice_ignoring_last(), b"rea");
    c.mark();
    assert_eq!(c.mark_index, 6);
    assert_eq!(c.slice(), b"");
    assert_eq!(c.stream_index, 6);
}

#[test]
fn peek_nothing() {
    let mut c = ByteStream::new(b"ab");
    assert_eq!(c.peek(0), b"");
    c.jump(2);
    assert_eq!(c.peek(0), b"");
    assert_eq!(c.stream_index, 2);
}
