use agon_control::audio::{AudioCapture, CAPTURE_CAP};
use agon_control::control_server::audio;

#[test]
fn keeps_what_fits() {
    let mut capture = AudioCapture::new();
    capture.tee(&[1, 2, 3]);
    capture.tee(&[]);
    capture.tee(&[4]);
    assert_eq!(capture.samples, vec![1, 2, 3, 4]);
    assert_eq!(capture.dropped, 0);
}

#[test]
fn drops_the_oldest_and_counts_them() {
    assert_eq!(CAPTURE_CAP, 64 * 1024);
    let mut capture = AudioCapture::new();
    capture.tee(&vec![7; CAPTURE_CAP]);
    assert_eq!((capture.samples.len(), capture.dropped), (CAPTURE_CAP, 0));
    capture.tee(&[1, 2, 3]);
    assert_eq!((capture.samples.len(), capture.dropped), (CAPTURE_CAP, 3));
    assert_eq!(capture.samples[0], 7);
    assert_eq!(&capture.samples[CAPTURE_CAP - 3..], &[1, 2, 3]);
}

#[test]
fn a_block_beyond_the_cap_keeps_its_end() {
    let block: Vec<u8> = (0..CAPTURE_CAP + 10).map(|i| (i % 251) as u8).collect();
    let mut capture = AudioCapture::new();
    capture.tee(&[9]);
    capture.tee(&block);
    assert_eq!(capture.samples, block[10..].to_vec());
    assert_eq!(capture.dropped, 11);
}

#[test]
fn blocks_make_no_difference() {
    let stream: Vec<u8> = (0..CAPTURE_CAP + 5000).map(|i| (i % 253) as u8).collect();
    let mut whole = AudioCapture::new();
    whole.tee(&stream);
    let mut cut = AudioCapture::new();
    for block in stream.chunks(4096) {
        cut.tee(block);
    }
    assert_eq!(whole.samples, cut.samples);
    assert_eq!(whole.dropped, cut.dropped);
    assert_eq!(whole.samples.len() + whole.dropped as usize, stream.len());
}

#[test]
fn the_count_stops_at_its_largest() {
    let mut capture = AudioCapture { samples: vec![0; CAPTURE_CAP], dropped: u32::MAX - 1 };
    capture.tee(&[1, 2, 3]);
    assert_eq!(capture.dropped, u32::MAX);
}

#[test]
fn reading_drains() {
    let mut capture = AudioCapture::new();
    capture.tee(&[1, 2, 3]);
    let reply = audio(&mut capture);
    assert!(reply.ends_with(b"Content-Length: 3\r\nConnection: close\r\n\r\n\x01\x02\x03"));
    assert!(reply.starts_with(b"HTTP/1.1 200 OK\r\nContent-Type: application/octet-stream\r\n"));
    assert!(capture.samples.is_empty());
    let again = audio(&mut capture);
    assert!(again.ends_with(b"Content-Length: 0\r\nConnection: close\r\n\r\n"));
}
