use rexmrg::get_endian;
use rexmrg::read_b_int32;
use rexmrg::ByteStream;
use rexmrg::Endian;
use rexmrg::ReadBytes;
use rexmrg::ReadError;

#[test]
fn new_stream_starts_at_zero() {
    let stream = ByteStream::new(vec![1, 2, 3]);
    assert_eq!(stream.position(), 0);
}

#[test]
fn read_array_takes_bytes_in_order() {
    let mut stream = ByteStream::new(vec![10, 20, 30, 40, 50]);
    assert_eq!(stream.read_array::<2>(), Ok([10, 20]));
    assert_eq!(stream.position(), 2);
    assert_eq!(stream.read_array::<3>(), Ok([30, 40, 50]));
    assert_eq!(stream.position(), 5);
}

#[test]
fn short_read_fails_and_moves_to_the_end() {
    let mut stream = ByteStream::new(vec![10, 20, 30]);
    assert_eq!(stream.read_array::<4>(), Err(ReadError::UnexpectedEof));
    assert_eq!(stream.position(), 3);
    assert_eq!(stream.read_array::<1>(), Err(ReadError::UnexpectedEof));
    assert_eq!(stream.position(), 3);
}

#[test]
fn read_beyond_the_end_leaves_the_position() {
    let mut stream = ByteStream::new(vec![10, 20, 30]);
    stream.seek_start(7);
    assert_eq!(stream.read_array::<1>(), Err(ReadError::UnexpectedEof));
    assert_eq!(stream.position(), 7);
}

#[test]
fn empty_read_succeeds_anywhere() {
    let mut stream = ByteStream::new(vec![10]);
    stream.seek_start(9);
    assert_eq!(stream.read_array::<0>(), Ok([]));
    assert_eq!(stream.position(), 9);
}

#[test]
fn seek_current_moves_both_ways() {
    let mut stream = ByteStream::new(vec![0; 8]);
    assert_eq!(stream.seek_current(4), Ok(4));
    assert_eq!(stream.seek_current(-3), Ok(1));
    assert_eq!(stream.position(), 1);
    assert_eq!(stream.seek_current(100), Ok(101));
    assert_eq!(stream.position(), 101);
}

#[test]
fn seek_before_start_is_refused() {
    let mut stream = ByteStream::new(vec![0; 8]);
    stream.seek_start(2);
    assert_eq!(stream.seek_current(-3), Err(ReadError::InvalidSeek));
    assert_eq!(stream.position(), 2);
    assert_eq!(stream.seek_current(i64::MIN), Err(ReadError::InvalidSeek));
    assert_eq!(stream.position(), 2);
}

#[test]
fn seek_past_the_largest_position_is_refused() {
    let mut stream = ByteStream::new(vec![0; 8]);
    stream.seek_start(u64::MAX - 3);
    assert_eq!(stream.seek_current(4), Err(ReadError::InvalidSeek));
    assert_eq!(stream.position(), u64::MAX - 3);
    assert_eq!(stream.seek_current(3), Ok(u64::MAX));
    assert_eq!(stream.seek_current(i64::MIN), Ok(u64::MAX - (1u64 << 63)));
}

#[test]
fn read_b_int32_is_big_endian() {
    let mut stream = ByteStream::new(vec![0x12, 0x34, 0x56, 0x78, 0xFF, 0xFF, 0xFF, 0xFE]);
    assert_eq!(read_b_int32(&mut stream), Ok(0x12345678));
    assert_eq!(read_b_int32(&mut stream), Ok(-2));
    assert_eq!(read_b_int32(&mut stream), Err(ReadError::UnexpectedEof));
}

#[test]
fn int32_matches_std_in_both_orders() {
    let patterns: [[u8; 4]; 8] = [
        [0, 0, 0, 0],
        [0, 0, 0, 16],
        [16, 0, 0, 0],
        [0x80, 0, 0, 0],
        [0, 0, 0, 0x80],
        [0x7F, 0xFF, 0xFF, 0xFF],
        [0xFF, 0xFF, 0xFF, 0xFF],
        [0xDE, 0xAD, 0xBE, 0xEF],
    ];
    for pattern in patterns {
        let mut stream = ByteStream::new(pattern.to_vec());
        assert_eq!(Endian::Big.read_int32(&mut stream), Ok(i32::from_be_bytes(pattern)));
        let mut stream = ByteStream::new(pattern.to_vec());
        assert_eq!(Endian::Little.read_int32(&mut stream), Ok(i32::from_le_bytes(pattern)));
        assert_eq!(stream.position(), 4);
    }
}

#[test]
fn int32_exact_values() {
    let mut stream = ByteStream::new(vec![0x80, 0, 0, 0]);
    assert_eq!(Endian::Big.read_int32(&mut stream), Ok(i32::MIN));
    let mut stream = ByteStream::new(vec![0x80, 0, 0, 0]);
    assert_eq!(Endian::Little.read_int32(&mut stream), Ok(128));
    let mut stream = ByteStream::new(vec![0xFF, 0xFF, 0xFF, 0x7F]);
    assert_eq!(Endian::Little.read_int32(&mut stream), Ok(i32::MAX));
}

#[test]
fn int16_matches_std_in_both_orders() {
    let patterns: [[u8; 2]; 6] =
        [[0, 0], [0, 250], [250, 0], [0x80, 0], [0x7F, 0xFF], [0xFF, 0xFF]];
    for pattern in patterns {
        let mut stream = ByteStream::new(pattern.to_vec());
        assert_eq!(Endian::Big.read_int16(&mut stream), Ok(i16::from_be_bytes(pattern)));
        let mut stream = ByteStream::new(pattern.to_vec());
        assert_eq!(Endian::Little.read_int16(&mut stream), Ok(i16::from_le_bytes(pattern)));
        assert_eq!(stream.position(), 2);
    }
}

#[test]
fn int16_exact_values() {
    let mut stream = ByteStream::new(vec![0xFF, 0x06, 0x80, 0x00]);
    assert_eq!(Endian::Big.read_int16(&mut stream), Ok(-250));
    assert_eq!(Endian::Big.read_int16(&mut stream), Ok(i16::MIN));
    let mut stream = ByteStream::new(vec![0xFA, 0x00]);
    assert_eq!(Endian::Little.read_int16(&mut stream), Ok(250));
}

#[test]
fn u8_is_the_byte_itself() {
    let mut stream = ByteStream::new(vec![0, 255]);
    assert_eq!(Endian::Big.read_u8(&mut stream), Ok(0));
    assert_eq!(Endian::Little.read_u8(&mut stream), Ok(255));
    assert_eq!(Endian::Little.read_u8(&mut stream), Err(ReadError::UnexpectedEof));
}

#[test]
fn short_int_reads_fail() {
    let mut stream = ByteStream::new(vec![1, 2, 3]);
    assert_eq!(Endian::Big.read_int32(&mut stream), Err(ReadError::UnexpectedEof));
    let mut stream = ByteStream::new(vec![1]);
    assert_eq!(Endian::Little.read_int16(&mut stream), Err(ReadError::UnexpectedEof));
    assert_eq!(stream.position(), 1);
}

#[test]
fn probe_word_sixteen_means_big_endian() {
    let mut stream = ByteStream::new(vec![0, 0, 0, 16, 9, 9]);
    assert_eq!(get_endian(&mut stream), Ok(Endian::Big));
    assert_eq!(stream.position(), 4);
}

#[test]
fn any_other_probe_word_means_little_endian() {
    let others: [[u8; 4]; 7] = [
        [16, 0, 0, 0],
        [0, 0, 0, 0],
        [0, 0, 0, 15],
        [0, 0, 0, 17],
        [0, 0, 1, 16],
        [0xFF, 0xFF, 0xFF, 0xF0],
        [0, 16, 0, 0],
    ];
    for word in others {
        let mut stream = ByteStream::new(word.to_vec());
        assert_eq!(get_endian(&mut stream), Ok(Endian::Little));
        assert_eq!(stream.position(), 4);
    }
}

#[test]
fn probe_word_cut_short_is_an_error() {
    let mut stream = ByteStream::new(vec![0, 0, 0]);
    assert_eq!(get_endian(&mut stream), Err(ReadError::UnexpectedEof));
    let mut stream = ByteStream::new(Vec::new());
    assert_eq!(get_endian(&mut stream), Err(ReadError::UnexpectedEof));
}

#[test]
fn read_int32s_reads_count_values() {
    let mut stream = ByteStream::new(vec![0, 0, 0, 1, 0, 0, 1, 0, 0xFF, 0xFF, 0xFF, 0xFF, 7]);
    assert_eq!(ReadBytes::new(3, Endian::Big).read_int32s(&mut stream), Ok(vec![1, 256, -1]));
    assert_eq!(stream.position(), 12);
    let mut stream = ByteStream::new(vec![1, 0, 0, 0, 0, 1, 0, 0]);
    assert_eq!(ReadBytes::new(2, Endian::Little).read_int32s(&mut stream), Ok(vec![1, 256]));
}

#[test]
fn read_int32s_drops_partial_results() {
    let mut stream = ByteStream::new(vec![0, 0, 0, 1, 0, 0, 1]);
    assert_eq!(
        ReadBytes::new(2, Endian::Big).read_int32s(&mut stream),
        Err(ReadError::UnexpectedEof)
    );
    assert_eq!(stream.position(), 7);
}

#[test]
fn read_int16s_reads_count_values() {
    let mut stream = ByteStream::new(vec![0, 250, 0xFF, 0xFF, 0, 0]);
    assert_eq!(ReadBytes::new(3, Endian::Big).read_int16s(&mut stream), Ok(vec![250, -1, 0]));
    assert_eq!(stream.position(), 6);
    let mut stream = ByteStream::new(vec![0, 250, 0xFF, 0xFF, 0]);
    assert_eq!(
        ReadBytes::new(3, Endian::Big).read_int16s(&mut stream),
        Err(ReadError::UnexpectedEof)
    );
    assert_eq!(stream.position(), 5);
}

#[test]
fn read_u8s_reads_count_values() {
    let mut stream = ByteStream::new(vec![5, 6, 7]);
    assert_eq!(ReadBytes::new(2, Endian::Little).read_u8s(&mut stream), Ok(vec![5, 6]));
    assert_eq!(stream.position(), 2);
    assert_eq!(
        ReadBytes::new(2, Endian::Little).read_u8s(&mut stream),
        Err(ReadError::UnexpectedEof)
    );
    assert_eq!(stream.position(), 3);
}

#[test]
fn bulk_reads_of_nothing_succeed() {
    let mut stream = ByteStream::new(Vec::new());
    assert_eq!(ReadBytes::new(0, Endian::Big).read_int32s(&mut stream), Ok(Vec::new()));
    assert_eq!(ReadBytes::new(-5, Endian::Big).read_int16s(&mut stream), Ok(Vec::new()));
    assert_eq!(ReadBytes::new(i32::MIN, Endian::Big).read_u8s(&mut stream), Ok(Vec::new()));
    stream.seek_start(40);
    assert_eq!(ReadBytes::new(0, Endian::Big).read_int32s(&mut stream), Ok(Vec::new()));
    assert_eq!(stream.position(), 40);
    assert_eq!(ReadBytes::new(-1, Endian::Little).iter_int32s().next(&mut stream), None);
}

#[test]
fn iter_int32s_gives_every_outcome() {
    let mut stream = ByteStream::new(vec![0, 0, 0, 1, 0, 0, 0, 2, 0, 0]);
    let mut run = ReadBytes::new(4, Endian::Big).iter_int32s();
    let mut outcomes = Vec::new();
    while let Some(outcome) = run.next(&mut stream) {
        outcomes.push(outcome);
    }
    assert_eq!(
        outcomes,
        vec![Ok(1), Ok(2), Err(ReadError::UnexpectedEof), Err(ReadError::UnexpectedEof)]
    );
    assert_eq!(stream.position(), 10);
}

#[test]
fn iter_int16s_gives_every_outcome() {
    let mut stream = ByteStream::new(vec![1, 0, 2, 0, 3]);
    let mut run = ReadBytes::new(3, Endian::Little).iter_int16s();
    let mut outcomes = Vec::new();
    while let Some(outcome) = run.next(&mut stream) {
        outcomes.push(outcome);
    }
    assert_eq!(outcomes, vec![Ok(1), Ok(2), Err(ReadError::UnexpectedEof)]);
    assert_eq!(stream.position(), 5);
    let mut stream = ByteStream::new(vec![1, 0, 2, 0]);
    let mut run = ReadBytes::new(2, Endian::Little).iter_int16s();
    let mut outcomes = Vec::new();
    while let Some(outcome) = run.next(&mut stream) {
        outcomes.push(outcome);
    }
    assert_eq!(outcomes, vec![Ok(1), Ok(2)]);
    assert_eq!(stream.position(), 4);
}

#[test]
fn iter_u8s_gives_every_outcome() {
    let mut stream = ByteStream::new(vec![9]);
    let mut run = ReadBytes::new(2, Endian::Big).iter_u8s();
    let mut outcomes = Vec::new();
    while let Some(outcome) = run.next(&mut stream) {
        outcomes.push(outcome);
    }
    assert_eq!(outcomes, vec![Ok(9), Err(ReadError::UnexpectedEof)]);
    assert_eq!(stream.position(), 1);
}

#[test]
fn iter_int16s_reads_one_item_per_call() {
    let mut stream = ByteStream::new(vec![0, 1, 0xFF, 0xFE, 0, 3, 9, 9]);
    let mut run = ReadBytes::new(3, Endian::Big).iter_int16s();
    assert_eq!(run.next(&mut stream), Some(Ok(1)));
    assert_eq!(stream.position(), 2);
    assert_eq!(run.next(&mut stream), Some(Ok(-2)));
    assert_eq!(stream.position(), 4);
    assert_eq!(run.next(&mut stream), Some(Ok(3)));
    assert_eq!(stream.position(), 6);
    assert_eq!(run.next(&mut stream), None);
    assert_eq!(run.next(&mut stream), None);
    assert_eq!(stream.position(), 6);
}

#[test]
fn iter_int32s_reads_one_item_per_call() {
    let mut stream = ByteStream::new(vec![1, 0, 0, 0, 0, 1, 0, 0, 7]);
    let mut run = ReadBytes::new(2, Endian::Little).iter_int32s();
    assert_eq!(run.next(&mut stream), Some(Ok(1)));
    assert_eq!(stream.position(), 4);
    assert_eq!(run.next(&mut stream), Some(Ok(256)));
    assert_eq!(stream.position(), 8);
    assert_eq!(run.next(&mut stream), None);
    assert_eq!(stream.position(), 8);
}

#[test]
fn iter_u8s_reads_one_item_per_call() {
    let mut stream = ByteStream::new(vec![5, 6, 7]);
    let mut run = ReadBytes::new(2, Endian::Big).iter_u8s();
    assert_eq!(run.next(&mut stream), Some(Ok(5)));
    assert_eq!(stream.position(), 1);
    assert_eq!(run.next(&mut stream), Some(Ok(6)));
    assert_eq!(stream.position(), 2);
    assert_eq!(run.next(&mut stream), None);
    assert_eq!(stream.position(), 2);
}

#[test]
fn iter_goes_on_after_a_failed_read() {
    let mut stream = ByteStream::new(vec![0, 1, 0]);
    let mut run = ReadBytes::new(3, Endian::Big).iter_int16s();
    assert_eq!(run.next(&mut stream), Some(Ok(1)));
    assert_eq!(run.next(&mut stream), Some(Err(ReadError::UnexpectedEof)));
    assert_eq!(stream.position(), 3);
    assert_eq!(run.next(&mut stream), Some(Err(ReadError::UnexpectedEof)));
    assert_eq!(run.next(&mut stream), None);
}

#[test]
fn iter_of_nothing_gives_nothing() {
    let mut stream = ByteStream::new(vec![1, 2, 3, 4]);
    assert_eq!(ReadBytes::new(0, Endian::Big).iter_int32s().next(&mut stream), None);
    assert_eq!(ReadBytes::new(-1, Endian::Big).iter_int16s().next(&mut stream), None);
    assert_eq!(ReadBytes::new(i32::MIN, Endian::Big).iter_u8s().next(&mut stream), None);
    assert_eq!(stream.position(), 0);
}

#[test]
fn iter_can_stop_early() {
    let mut stream = ByteStream::new(vec![0, 1, 0, 2, 0, 3]);
    let mut run = ReadBytes::new(3, Endian::Big).iter_int16s();
    assert_eq!(run.next(&mut stream), Some(Ok(1)));
    assert_eq!(Endian::Big.read_int32(&mut stream), Ok(0x0002_0003));
}

#[test]
fn iter_agrees_with_the_bulk_read() {
    for len in 0..8usize {
        let bytes: Vec<u8> = (0..len as u8).collect();
        let mut whole = ByteStream::new(bytes.clone());
        let read = ReadBytes::new(3, Endian::Little).read_int16s(&mut whole);
        let mut stream = ByteStream::new(bytes);
        let mut run = ReadBytes::new(3, Endian::Little).iter_int16s();
        let mut one_by_one = Vec::new();
        let mut first_error = None;
        while let Some(outcome) = run.next(&mut stream) {
            match outcome {
                Ok(value) => one_by_one.push(value),
                Err(e) => {
                    first_error = Some(e);
                    break;
                }
            }
        }
        match first_error {
            Some(e) => assert_eq!(read, Err(e)),
            None => assert_eq!(read, Ok(one_by_one)),
        }
        assert_eq!(stream.position(), whole.position());
    }
}
