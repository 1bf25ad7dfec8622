use byte_stream::{is_alpha, ByteStream, Stop};

#[test]
fn collect_eos() {
    let mut c = ByteStream::new(b"stream data");

    let stop = c.collect(|_| false);

    assert_eq!(stop, Stop::EndOfStream);
    assert_eq!(c.slice(), b"stream data");
}

#[test]
fn collect_one() {
    let mut c = ByteStream::new(b"stream data");

    let stop = c.collect(|_| true);

    assert_eq!(stop, Stop::Callback);
    assert_eq!(c.byte, b's');
    assert_eq!(c.slice(), b"s");
}

#[test]
fn collect_word() {
    let mut c = ByteStream::new(b"stream data");

    let stop = c.collect(|byte| byte == b' ');

    assert_eq!(stop, Stop::Callback);
    assert_eq!(c.byte, b' ');
    assert_eq!(c.slice(), b"stream ");
    assert_eq!(c.slice_ignoring_last(), b"stream");
}

#[test]
fn collect_length() {
    let mut c = ByteStream::new(b"stream data");

    c.collect_fixed_length(11);

    assert_eq!(c.slice(), b"stream data");
}

#[test]
fn collect_length_check() {
    let mut c = ByteStream::new(b"stream data");

    let stop = c.collect_fixed_length_with(11, |byte| byte == b' ');

    assert_eq!(stop, Stop::Callback);
    assert_eq!(c.slice(), b"stream ");
    assert_eq!(c.slice_ignoring_last(), b"stream");
}

#[test]
fn collect_when() {
    let mut c = ByteStream::new(b"stream data");

    c.collect_while(is_alpha);

    assert_eq!(c.byte, b' ');
    assert_eq!(c.slice(), b"stream ");
    assert_eq!(c.slice_ignoring_last(), b"stream");
}

#[test]
fn collect_when_eos() {
    let mut c = ByteStream::new(b"streamdata");

    c.collect_while(is_alpha);

    assert_eq!(c.byte, b'a');
    assert_eq!(c.slice(), b"streamdata");
}

#[test]
fn collect_until() {
    let mut c = ByteStream::new(b"stream data");

    c.collect_until(|byte| !is_alpha(byte));

    assert_eq!(c.byte, b' ');
    assert_eq!(c.slice(), b"stream ");
    assert_eq!(c.slice_ignoring_last(), b"stream");
}

#[test]
fn collect_until_eos() {
    let mut c = ByteStream::new(b"streamdata");

    c.collect_until(|byte| !is_alpha(byte));

    assert_eq!(c.byte, b'a');
    assert_eq!(c.slice(), b"streamdata");
}

#[test]
fn collect_while_tells_how_it_ended() {
    let mut c = ByteStream::new(b"stream data");
    assert_eq!(c.collect_while(is_alpha), Stop::Delimiter);
    assert_eq!(c.stream_index, 7);
    assert_eq!(c.collect_while(is_alpha), Stop::EndOfStream);
    assert_eq!(c.stream_index, 11);
    assert_eq!(c.byte, b'a');
    // nothing is left: nothing is consumed, and the current byte stays
    assert_eq!(c.collect_while(is_alpha), Stop::EndOfStream);
    assert_eq!(c.stream_index, 11);
    assert_eq!(c.byte, b'a');
}

#[test]
fn collect_until_tells_how_it_ended() {
    let mut c = ByteStream::new(b"ab;cd");
    assert_eq!(c.collect_until(|byte| byte == b';'), Stop::Delimiter);
    assert_eq!(c.stream_index, 3);
    assert_eq!(c.byte, b';');
    assert_eq!(c.collect_until(|byte| byte == b';'), Stop::EndOfStream);
    assert_eq!(c.stream_index, 5);
    assert_eq!(c.byte, b'd');
}

#[test]
fn collect_on_an_empty_stream() {
    let mut c = ByteStream::new(b"");
    assert_eq!(c.collect(|_| true), Stop::EndOfStream);
    assert_eq!(c.stream_index, 0);
    assert_eq!(c.byte, 0);
}

#[test]
fn collect_leaves_the_mark() {
    let mut c = ByteStream::new(b"key=value");
    c.jump(4);
    c.mark();
    assert_eq!(c.collect(|_| false), Stop::EndOfStream);
    assert_eq!(c.mark_index, 4);
    assert_eq!(c.slice(), b"value");
}

#[test]
fn collect_fixed_length_moves_by_the_length() {
    let mut c = ByteStream::new(b"stream data");
    c.advance();
    c.mark();
    c.collect_fixed_length(5);
    assert_eq!(c.stream_index, 6);
    assert_eq!(c.slice(), b"tream");
    // no byte was read
    assert_eq!(c.byte, b's');
    c.collect_fixed_length(0);
    assert_eq!(c.stream_index, 6);
}

#[test]
fn collect_fixed_length_with_reaches_the_length() {
    let mut c = ByteStream::new(b"stream data");
    let stop = c.collect_fixed_length_with(4, |_| false);
    assert_eq!(stop, Stop::Length);
    assert_eq!(c.slice(), b"stre");
    assert_eq!(c.byte, b'e');
}

#[test]
fn collect_fixed_length_with_counts_from_the_mark() {
    let mut c = ByteStream::new(b"stream data");
    c.jump(2);
    c.mark();
    c.advance();
    let stop = c.collect_fixed_length_with(4, |_| false);
    assert_eq!(stop, Stop::Length);
    assert_eq!(c.stream_index, 6);
    assert_eq!(c.slice(), b"ream");
}

#[test]
fn collect_fixed_length_with_runs_out_of_bytes() {
    let mut c = ByteStream::new(b"abc");
    let stop = c.collect_fixed_length_with(4, |_| false);
    assert_eq!(stop, Stop::EndOfStream);
    assert_eq!(c.stream_index, 3);
    assert_eq!(c.byte, b'c');
}

#[test]
fn collect_fixed_length_with_asks_the_callback_first() {
    let mut c = ByteStream::new(b"ab cd");
    let stop = c.collect_fixed_length_with(3, |byte| byte == b' ');
    assert_eq!(stop, Stop::Callback);
    assert_eq!(c.stream_index, 3);
}

#[test]
fn collect_fixed_length_with_looks_at_the_count_after_a_byte() {
    // the length is already there: the count is met at no later byte
    let mut c = ByteStream::new(b"abcdef");
    c.jump(2);
    let stop = c.collect_fixed_length_with(2, |_| false);
    assert_eq!(stop, Stop::EndOfStream);
    assert_eq!(c.stream_index, 6);

    let mut c = ByteStream::new(b"abcdef");
    let stop = c.collect_fixed_length_with(0, |_| false);
    assert_eq!(stop, Stop::EndOfStream);
    assert_eq!(c.stream_index, 6);
}
