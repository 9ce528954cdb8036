use gui_timer::codec::{
    decode, decode_payload, encode, encode_payload, frame_payload, ReadError, WriteError,
};
use gui_timer::message::{GuiAction, GuiResponse, Message};
use gui_timer::stream::FrameReader;
use gui_timer::wire::{le_u64_decode, le_u64_encode};

#[test]
fn sync_socket_async_write() {
    let second = encode(&GuiAction::Quit).expect("Can write to buf");
    assert_eq!(second, vec![4, 0, 0, 0, 0, 0, 0, 0, 0, 0, 0, 1]);

    let first = encode(&GuiAction::Close).expect("Can write to buf");
    assert_eq!(first, vec![4, 0, 0, 0, 0, 0, 0, 0, 0, 0, 0, 0]);
}

#[test]
fn sync_socket_async_read() {
    let buf: Vec<u8> = vec![4, 0, 0, 0, 0, 0, 0, 0, 0, 0, 0, 0];
    let (data, used) = decode::<GuiAction>(&buf).expect("Able to read from buf");
    assert_eq!(data, GuiAction::Close);
    assert_eq!(used, 12);

    let buf: Vec<u8> = vec![4, 0, 0, 0, 0, 0, 0, 0, 0, 0, 0, 1];
    let (data, used) = decode::<GuiAction>(&buf).expect("Able to read from buf");
    assert_eq!(data, GuiAction::Quit);
    assert_eq!(used, 12);
}

fn read_through_reader<M: Message>(bytes: &[u8], chunk: usize) -> Result<M, ReadError> {
    let mut reader = FrameReader::new();
    let mut pos = 0;
    while pos < bytes.len() {
        let end = usize::min(pos + chunk, bytes.len());
        let (used, done) = reader.fill::<M>(&bytes[pos..end]);
        pos += used;
        if let Some(result) = done {
            return result;
        }
    }
    Err(reader.end_of_stream())
}

#[test]
fn async_socket_async_write() {
    let mut buf = [0u8; 12];
    buf.copy_from_slice(&encode(&GuiAction::Quit).expect("Can write to buf"));
    assert_eq!(buf, [4, 0, 0, 0, 0, 0, 0, 0, 0, 0, 0, 1]);

    buf.copy_from_slice(&encode(&GuiAction::Close).expect("Can write to buf"));
    assert_eq!(buf, [4, 0, 0, 0, 0, 0, 0, 0, 0, 0, 0, 0]);
}

#[test]
fn async_socket_async_read() {
    let buf: [u8; 12] = [4, 0, 0, 0, 0, 0, 0, 0, 0, 0, 0, 0];
    let data: GuiAction = read_through_reader(&buf, 12).expect("Able to read from buf");
    assert_eq!(data, GuiAction::Close);

    let buf: [u8; 12] = [4, 0, 0, 0, 0, 0, 0, 0, 0, 0, 0, 1];
    let data: GuiAction = read_through_reader(&buf, 12).expect("Able to read from buf");
    assert_eq!(data, GuiAction::Quit);
}

#[test]
fn every_value_round_trips() {
    for action in [GuiAction::Close, GuiAction::Quit] {
        let bytes = encode(&action).unwrap();
        assert_eq!(decode::<GuiAction>(&bytes), Ok((action, bytes.len())));
    }
    for response in [GuiResponse::Opened, GuiResponse::Closed] {
        let bytes = encode(&response).unwrap();
        assert_eq!(decode::<GuiResponse>(&bytes), Ok((response, bytes.len())));
    }
}

#[test]
fn two_frames_read_back_in_order() {
    let mut stream = encode(&GuiResponse::Opened).unwrap();
    stream.extend(encode(&GuiResponse::Closed).unwrap());
    let (first, used) = decode::<GuiResponse>(&stream).unwrap();
    assert_eq!(first, GuiResponse::Opened);
    assert_eq!(used, 12);
    let (second, used2) = decode::<GuiResponse>(&stream[used..]).unwrap();
    assert_eq!(second, GuiResponse::Closed);
    assert_eq!(used + used2, stream.len());
}

#[test]
fn short_payload_is_a_short_read() {
    let mut stream = vec![4, 0, 0, 0, 0, 0, 0, 0];
    assert_eq!(decode::<GuiAction>(&stream), Err(ReadError::ShortRead));
    stream.extend([0, 0, 0]);
    assert_eq!(decode::<GuiAction>(&stream), Err(ReadError::ShortRead));
    assert_eq!(read_through_reader::<GuiAction>(&stream, 5), Err(ReadError::ShortRead));
}

#[test]
fn short_header_is_a_short_read() {
    assert_eq!(decode::<GuiAction>(&[4, 0, 0]), Err(ReadError::ShortRead));
    assert_eq!(read_through_reader::<GuiAction>(&[4, 0, 0], 1), Err(ReadError::ShortRead));
}

#[test]
fn empty_stream_is_a_clean_disconnect() {
    assert_eq!(decode::<GuiAction>(&[]), Err(ReadError::Disconnected));
    assert_eq!(read_through_reader::<GuiAction>(&[], 4), Err(ReadError::Disconnected));
}

#[test]
fn unknown_tag_is_a_decode_error() {
    let stream = vec![4, 0, 0, 0, 0, 0, 0, 0, 0, 0, 0, 2];
    assert_eq!(decode::<GuiResponse>(&stream), Err(ReadError::Decode));
    assert_eq!(read_through_reader::<GuiResponse>(&stream, 3), Err(ReadError::Decode));
}

#[test]
fn payload_too_short_for_a_tag_is_a_decode_error() {
    let stream = vec![2, 0, 0, 0, 0, 0, 0, 0, 0, 1];
    assert_eq!(decode::<GuiResponse>(&stream), Err(ReadError::Decode));
    let empty_payload = vec![0, 0, 0, 0, 0, 0, 0, 0];
    assert_eq!(decode::<GuiResponse>(&empty_payload), Err(ReadError::Decode));
}

#[test]
fn reader_never_takes_bytes_of_the_next_frame() {
    let mut stream = encode(&GuiAction::Quit).unwrap();
    stream.extend(encode(&GuiAction::Close).unwrap());
    let mut reader = FrameReader::new();
    assert!(reader.at_boundary());
    assert_eq!(reader.bytes_missing(), 8);
    let (used, done) = reader.fill::<GuiAction>(&stream);
    assert_eq!(used, 8);
    assert_eq!(done, None);
    assert_eq!(reader.bytes_missing(), 4);
    let (used, done) = reader.fill::<GuiAction>(&stream[8..]);
    assert_eq!(used, 4);
    assert_eq!(done, Some(Ok(GuiAction::Quit)));
    assert!(reader.at_boundary());
    let (used, done) = reader.fill::<GuiAction>(&stream[12..14]);
    assert_eq!(used, 2);
    assert_eq!(done, None);
    assert!(!reader.at_boundary());
    assert_eq!(reader.bytes_missing(), 6);
    let (used, done) = reader.fill::<GuiAction>(&stream[14..20]);
    assert_eq!(used, 6);
    assert_eq!(done, None);
    assert_eq!(reader.bytes_missing(), 4);
    let (used, done) = reader.fill::<GuiAction>(&stream[20..]);
    assert_eq!(used, 4);
    assert_eq!(done, Some(Ok(GuiAction::Close)));
    assert_eq!(reader.end_of_stream(), ReadError::Disconnected);
}

#[test]
fn reader_byte_by_byte() {
    let bytes = encode(&GuiResponse::Closed).unwrap();
    assert_eq!(read_through_reader::<GuiResponse>(&bytes, 1), Ok(GuiResponse::Closed));
}

#[test]
fn payload_is_the_big_endian_tag() {
    assert_eq!(encode_payload(&GuiAction::Quit), Ok(vec![0, 0, 0, 1]));
    assert_eq!(encode_payload(&GuiResponse::Opened), Ok(vec![0, 0, 0, 0]));
    assert_eq!(decode_payload::<GuiAction>(&[0, 0, 0, 1]), Some(GuiAction::Quit));
    assert_eq!(decode_payload::<GuiAction>(&[0, 0, 0, 1, 9]), Some(GuiAction::Quit));
    assert_eq!(decode_payload::<GuiAction>(&[1, 0, 0, 0]), None);
    assert_eq!(decode_payload::<GuiAction>(&[0, 0, 1]), None);
}

#[test]
fn frame_header_is_little_endian_length() {
    assert_eq!(frame_payload(&[7, 8, 9]), vec![3, 0, 0, 0, 0, 0, 0, 0, 7, 8, 9]);
    assert_eq!(frame_payload(&[]), vec![0, 0, 0, 0, 0, 0, 0, 0]);
    assert_eq!(
        le_u64_encode(0x0102_0304_0506_0708),
        vec![8, 7, 6, 5, 4, 3, 2, 1]
    );
    assert_eq!(le_u64_decode(&[8, 7, 6, 5, 4, 3, 2, 1, 99]), 0x0102_0304_0506_0708);
    assert_eq!(le_u64_decode(&le_u64_encode(u64::MAX)), u64::MAX);
}

#[test]
fn large_announced_length_waits_for_bytes() {
    let mut reader = FrameReader::new();
    let header = le_u64_encode(u64::MAX);
    let (used, done) = reader.fill::<GuiAction>(&header);
    assert_eq!(used, 8);
    assert_eq!(done, None);
    assert_eq!(reader.bytes_missing(), u64::MAX);
    assert_eq!(reader.end_of_stream(), ReadError::ShortRead);
}

#[test]
fn tags_are_stable() {
    assert_eq!(GuiAction::Close.tag(), 0);
    assert_eq!(GuiAction::Quit.tag(), 1);
    assert_eq!(GuiResponse::Opened.tag(), 0);
    assert_eq!(GuiResponse::Closed.tag(), 1);
    assert_eq!(GuiResponse::from_tag(1), Some(GuiResponse::Closed));
    assert_eq!(GuiResponse::from_tag(2), None);
    assert_ne!(WriteError::Encode, WriteError::Transport);
}
