use gcast::back::net::transport::{RawPacket, Reader};

fn read_data(data: &[u8]) -> (Reader, Vec<RawPacket>) {
    let mut reader = Reader::new();
    let mut packets = Vec::new();

    reader.read(data, &mut packets).unwrap();
    (reader, packets)
}

#[test]
fn transport_it_reads_size_prefix_at_once() {
    let (reader, packets) = read_data(&[0, 0, 0, 10]);

    assert_eq!(packets.len(), 0);
    assert_eq!(reader, Reader::ReadingBody { bytes: Vec::new(), size: 10 });
}

#[test]
fn transport_it_reads_since_prefix_in_pieces() {
    let (mut reader, _) = read_data(&[0, 0, 0]);

    assert_eq!(reader, Reader::ReadingSize { bytes: vec![0, 0, 0] });

    reader.read(&[30], &mut Vec::new()).unwrap();
    assert_eq!(reader, Reader::ReadingBody { size: 30, bytes: vec![] });
}

#[test]
fn transport_it_reads_size_and_body_at_once() {
    let (reader, packets) = read_data("\x00\x00\x00\x05hello".as_bytes());

    assert_eq!(reader, Reader::ReadingSize { bytes: vec![] });
    assert_eq!(packets, vec!["hello".as_bytes()]);
}

#[test]
fn transport_it_reads_body_in_pieces() {
    let (mut reader, mut packets) = read_data("\x00\x00\x00\x05wo".as_bytes());

    assert_eq!(reader, Reader::ReadingBody { size: 5, bytes: "wo".as_bytes().to_owned() });
    assert_eq!(packets.len(), 0);

    reader.read("rld".as_bytes(), &mut packets).unwrap();
    assert_eq!(reader, Reader::ReadingSize { bytes: Vec::new() });

    assert_eq!(packets, vec!["world".as_bytes()]);
}

#[test]
fn connection_it_reads_size_prefix_at_once() {
    let (reader, packets) = read_data(&[0, 0, 0, 10]);

    assert_eq!(packets.len(), 0);
    assert_eq!(reader, Reader::ReadingBody { bytes: Vec::new(), size: 10 });
}

#[test]
fn connection_it_reads_since_prefix_in_pieces() {
    let (mut reader, _) = read_data(&[0, 0, 0]);

    assert_eq!(reader, Reader::ReadingSize { bytes: vec![0, 0, 0] });

    reader.read(&[30], &mut Vec::new()).unwrap();
    assert_eq!(reader, Reader::ReadingBody { size: 30, bytes: vec![] });
}

#[test]
fn connection_it_reads_size_and_body_at_once() {
    let (reader, packets) = read_data("\x00\x00\x00\x05hello".as_bytes());

    assert_eq!(reader, Reader::ReadingSize { bytes: vec![] });
    assert_eq!(packets, vec!["hello".as_bytes()]);
}

#[test]
fn connection_it_reads_body_in_pieces() {
    let (mut reader, mut packets) = read_data("\x00\x00\x00\x05wo".as_bytes());

    assert_eq!(reader, Reader::ReadingBody { size: 5, bytes: "wo".as_bytes().to_owned() });
    assert_eq!(packets.len(), 0);

    reader.read("rld".as_bytes(), &mut packets).unwrap();
    assert_eq!(reader, Reader::ReadingSize { bytes: Vec::new() });

    assert_eq!(packets, vec!["world".as_bytes()]);
}

#[test]
fn it_reassembles_a_frame_from_three_chunks() {
    let mut reader = Reader::new();
    let mut packets = Vec::new();

    reader.read(&[0x00, 0x00, 0x00], &mut packets).unwrap();
    reader.read(&[0x05, b'h', b'e'], &mut packets).unwrap();
    reader.read(&[b'l', b'l', b'o'], &mut packets).unwrap();

    assert_eq!(packets, vec!["hello".as_bytes()]);
    assert_eq!(reader, Reader::ReadingSize { bytes: vec![] });
}

#[test]
fn it_reads_the_size_most_significant_byte_first() {
    let (reader, _) = read_data(&[0x01, 0x02, 0x03, 0x04]);

    assert_eq!(reader, Reader::ReadingBody { bytes: Vec::new(), size: 0x0102_0304 });
}

#[test]
fn it_gives_out_an_empty_frame_at_once() {
    let (reader, packets) = read_data(&[0, 0, 0, 0, 0, 0, 0, 1, b'x']);

    assert_eq!(packets, vec![Vec::<u8>::new(), vec![b'x']]);
    assert_eq!(reader, Reader::ReadingSize { bytes: vec![] });
}

#[test]
fn it_reads_several_frames_and_keeps_the_rest() {
    let (reader, packets) = read_data(b"\x00\x00\x00\x02ab\x00\x00\x00\x01c\x00\x00");

    assert_eq!(packets, vec![b"ab".to_vec(), b"c".to_vec()]);
    assert_eq!(reader, Reader::ReadingSize { bytes: vec![0, 0] });
}

#[test]
fn it_appends_to_the_packets_it_is_given() {
    let mut reader = Reader::new();
    let mut packets = vec![b"old".to_vec()];

    reader.read(b"\x00\x00\x00\x03new", &mut packets).unwrap();

    assert_eq!(packets, vec![b"old".to_vec(), b"new".to_vec()]);
}

#[test]
fn it_reads_the_same_frames_however_the_stream_is_cut() {
    let stream = b"\x00\x00\x00\x05hello\x00\x00\x00\x00\x00\x00\x00\x03abc\x00\x00\x00\x09in".to_vec();
    let (whole_reader, whole_packets) = read_data(&stream);

    for first in 0..=stream.len() {
        for second in first..=stream.len() {
            let mut reader = Reader::new();
            let mut packets = Vec::new();
            reader.read(&stream[..first], &mut packets).unwrap();
            reader.read(&stream[first..second], &mut packets).unwrap();
            reader.read(&stream[second..], &mut packets).unwrap();

            assert_eq!(packets, whole_packets);
            assert_eq!(reader, whole_reader);
        }
    }

    let mut reader = Reader::new();
    let mut packets = Vec::new();
    for byte in &stream {
        reader.read(&[*byte], &mut packets).unwrap();
    }
    assert_eq!(packets, whole_packets);
    assert_eq!(reader, whole_reader);
    assert_eq!(packets.len(), 3);
    assert_eq!(reader, Reader::ReadingBody { bytes: b"in".to_vec(), size: 9 });
}
