use hiisi::frame::{
    decode_length, encode_length, frame_length, read_frame, write_frame, FrameError, Framed,
    MAX_FRAME_SIZE,
};

#[test]
fn length_is_big_endian() {
    assert_eq!(encode_length(2), [0, 0, 0, 2]);
    assert_eq!(encode_length(0x0102_0304), [1, 2, 3, 4]);
    assert_eq!(encode_length(u32::MAX), [255, 255, 255, 255]);
    assert_eq!(decode_length(&[1, 2, 3, 4]), 0x0102_0304);
    assert_eq!(decode_length(&[0, 0, 1, 0]), 256);
}

#[test]
fn frame_is_length_then_body() {
    let frame = write_frame(b"{}").unwrap();
    assert_eq!(frame, vec![0, 0, 0, 2, b'{', b'}']);
}

#[test]
fn empty_body_is_a_frame() {
    assert_eq!(write_frame(b"").unwrap(), vec![0, 0, 0, 0]);
    match read_frame(&[0, 0, 0, 0, 9]) {
        Ok(Framed::Frame { body, used }) => {
            assert!(body.is_empty());
            assert_eq!(used, 4);
        }
        _ => panic!("an empty frame was expected"),
    }
}

#[test]
fn frame_round_trip() {
    let body = br#"{"cmd":"Status","user":"alice"}"#.to_vec();
    let mut stream = write_frame(&body).unwrap();
    let frame_len = stream.len();
    stream.extend_from_slice(b"what follows");
    match read_frame(&stream) {
        Ok(Framed::Frame { body: read, used }) => {
            assert_eq!(read, body);
            assert_eq!(used, frame_len);
        }
        _ => panic!("a whole frame was expected"),
    }
}

#[test]
fn frame_round_trip_at_the_limit() {
    let body = vec![7u8; MAX_FRAME_SIZE as usize];
    let stream = write_frame(&body).unwrap();
    assert_eq!(&stream[..4], &[1, 0, 0, 0]);
    match read_frame(&stream) {
        Ok(Framed::Frame { body: read, used }) => {
            assert!(read == body);
            assert_eq!(used, body.len() + 4);
        }
        _ => panic!("a whole frame was expected"),
    }
}

#[test]
fn partial_frames_wait_for_more() {
    assert!(matches!(read_frame(&[]), Ok(Framed::Partial)));
    assert!(matches!(read_frame(&[0, 0, 0]), Ok(Framed::Partial)));
    assert!(matches!(read_frame(&[0, 0, 0, 3, 1, 2]), Ok(Framed::Partial)));
}

#[test]
fn write_refuses_a_body_over_the_limit() {
    let body = vec![0u8; MAX_FRAME_SIZE as usize + 1];
    match write_frame(&body) {
        Err(FrameError::TooLarge(n)) => assert_eq!(n, 16_777_217),
        _ => panic!("TooLarge was expected"),
    }
}

#[test]
fn frame_overrun_is_refused_without_a_body() {
    let header = encode_length(20 * 1024 * 1024);
    match read_frame(&header) {
        Err(FrameError::TooLarge(n)) => assert_eq!(n, 20_971_520),
        _ => panic!("TooLarge was expected"),
    }
    match frame_length(&header) {
        Err(FrameError::TooLarge(n)) => assert_eq!(n, 20_971_520),
        _ => panic!("TooLarge was expected"),
    }
}

#[test]
fn frame_length_accepts_the_limit() {
    assert!(matches!(frame_length(&encode_length(MAX_FRAME_SIZE)), Ok(16_777_216)));
    assert!(matches!(
        frame_length(&encode_length(MAX_FRAME_SIZE + 1)),
        Err(FrameError::TooLarge(16_777_217))
    ));
    assert!(matches!(frame_length(&[0, 0, 0, 0]), Ok(0)));
}

#[test]
fn frame_errors_are_shown() {
    assert_eq!(FrameError::TooLarge(20_971_520).to_string(), "Frame too large: 20971520 bytes");
    let io = std::io::Error::new(std::io::ErrorKind::Other, "pipe closed");
    assert_eq!(FrameError::Io(io).to_string(), "IO error: pipe closed");
}

#[test]
fn io_errors_become_frame_errors() {
    let io = std::io::Error::new(std::io::ErrorKind::UnexpectedEof, "early end");
    let e: FrameError = io.into();
    match e {
        FrameError::Io(inner) => assert_eq!(inner.kind(), std::io::ErrorKind::UnexpectedEof),
        _ => panic!("Io was expected"),
    }
}
