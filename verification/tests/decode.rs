use bytes::BytesMut;
use telnet_wire::frame::{find_final, find_introducer, find_terminator, TelnetFrame};

fn buffer_of(bytes: &[u8]) -> BytesMut {
    BytesMut::from(bytes)
}

#[test]
fn plain_bytes_come_out_whole() {
    let mut buffer = buffer_of(b"hello, world");
    assert_eq!(TelnetFrame::decode(&mut buffer), TelnetFrame::Data(b"hello, world".to_vec()));
    assert!(buffer.is_empty());
}

#[test]
fn single_plain_byte_is_a_frame() {
    let mut buffer = buffer_of(&[0x00]);
    assert_eq!(TelnetFrame::decode(&mut buffer), TelnetFrame::Data(vec![0x00]));
    assert_eq!(buffer.len(), 0);
}

#[test]
fn data_stops_before_a_command() {
    let mut buffer = buffer_of(&[0x61, 0x62, 0xFF, 0xFB, 0x01]);
    assert_eq!(TelnetFrame::decode(&mut buffer), TelnetFrame::Data(vec![0x61, 0x62]));
    assert_eq!(&buffer[..], &[0xFF, 0xFB, 0x01]);
}

#[test]
fn data_stops_before_an_escape() {
    let mut buffer = buffer_of(&[0x61, 0x1B, 0x5B, 0x41]);
    assert_eq!(TelnetFrame::decode(&mut buffer), TelnetFrame::Data(vec![0x61]));
    assert_eq!(&buffer[..], &[0x1B, 0x5B, 0x41]);
}

#[test]
fn doubled_iac_is_one_data_byte() {
    let mut buffer = buffer_of(&[0xFF, 0xFF, 0x41, 0xFF, 0xFF]);
    assert_eq!(TelnetFrame::decode(&mut buffer), TelnetFrame::Data(vec![0xFF]));
    assert_eq!(&buffer[..], &[0x41, 0xFF, 0xFF]);
}

#[test]
fn doubled_iac_alone_leaves_nothing() {
    let mut buffer = buffer_of(&[0xFF, 0xFF]);
    assert_eq!(TelnetFrame::decode(&mut buffer), TelnetFrame::Data(vec![0xFF]));
    assert!(buffer.is_empty());
}

#[test]
fn three_byte_command_with_unknown_operands() {
    let mut buffer = buffer_of(&[0xFF, 0x00, 0x7F, 0x41, 0x42]);
    assert_eq!(TelnetFrame::decode(&mut buffer), TelnetFrame::IAC(vec![0xFF, 0x00, 0x7F]));
    assert_eq!(&buffer[..], &[0x41, 0x42]);
}

#[test]
fn three_byte_command_may_end_in_an_introducer() {
    let mut buffer = buffer_of(&[0xFF, 0xFD, 0xFF, 0x1B]);
    assert_eq!(TelnetFrame::decode(&mut buffer), TelnetFrame::IAC(vec![0xFF, 0xFD, 0xFF]));
    assert_eq!(&buffer[..], &[0x1B]);
}

#[test]
fn subnegotiation_ends_at_first_terminator() {
    let mut buffer =
        buffer_of(&[0xFF, 0xFA, 0x18, 0x00, 0x78, 0xFF, 0xF0, 0x41, 0xFF, 0xF0, 0x42]);
    assert_eq!(
        TelnetFrame::decode(&mut buffer),
        TelnetFrame::IAC(vec![0xFF, 0xFA, 0x18, 0x00, 0x78, 0xFF, 0xF0])
    );
    assert_eq!(&buffer[..], &[0x41, 0xFF, 0xF0, 0x42]);
}

#[test]
fn shortest_subnegotiation() {
    let mut buffer = buffer_of(&[0xFF, 0xFA, 0xFF, 0xF0]);
    assert_eq!(TelnetFrame::decode(&mut buffer), TelnetFrame::IAC(vec![0xFF, 0xFA, 0xFF, 0xF0]));
    assert!(buffer.is_empty());
}

#[test]
fn open_subnegotiation_is_pending() {
    let bytes = [0xFF, 0xFA, 0x18, 0x00, 0x78, 0x74];
    let mut buffer = buffer_of(&bytes);
    assert_eq!(TelnetFrame::decode(&mut buffer), TelnetFrame::Next);
    assert_eq!(&buffer[..], &bytes);
}

#[test]
fn trailing_introducer_closes_no_subnegotiation() {
    let bytes = [0xFF, 0xFA, 0x18, 0xF0, 0xFF];
    let mut buffer = buffer_of(&bytes);
    assert_eq!(TelnetFrame::decode(&mut buffer), TelnetFrame::Next);
    assert_eq!(&buffer[..], &bytes);
    buffer.extend_from_slice(&[0xF0]);
    assert_eq!(
        TelnetFrame::decode(&mut buffer),
        TelnetFrame::IAC(vec![0xFF, 0xFA, 0x18, 0xF0, 0xFF, 0xF0])
    );
    assert!(buffer.is_empty());
}

#[test]
fn short_commands_are_pending() {
    let mut buffer = buffer_of(&[0xFF]);
    assert_eq!(TelnetFrame::decode(&mut buffer), TelnetFrame::Next);
    assert_eq!(&buffer[..], &[0xFF]);

    let mut buffer = buffer_of(&[0xFF, 0xFD]);
    assert_eq!(TelnetFrame::decode(&mut buffer), TelnetFrame::Next);
    assert_eq!(&buffer[..], &[0xFF, 0xFD]);

    let mut buffer = buffer_of(&[0xFF, 0xFA]);
    assert_eq!(TelnetFrame::decode(&mut buffer), TelnetFrame::Next);
    assert_eq!(&buffer[..], &[0xFF, 0xFA]);
}

#[test]
fn control_escape_ends_at_first_final_byte() {
    let mut buffer = buffer_of(&[0x1B, 0x5B, 0x31, 0x3B, 0x32, 0x48, 0x41, 0x7E]);
    assert_eq!(
        TelnetFrame::decode(&mut buffer),
        TelnetFrame::CSI(vec![0x1B, 0x5B, 0x31, 0x3B, 0x32, 0x48])
    );
    assert_eq!(&buffer[..], &[0x41, 0x7E]);
}

#[test]
fn control_escape_final_byte_bounds() {
    let mut buffer = buffer_of(&[0x1B, 0x5B, 0x3F, 0x40]);
    assert_eq!(TelnetFrame::decode(&mut buffer), TelnetFrame::CSI(vec![0x1B, 0x5B, 0x3F, 0x40]));
    assert!(buffer.is_empty());

    let mut buffer = buffer_of(&[0x1B, 0x5B, 0x7F, 0x7E, 0x30]);
    assert_eq!(TelnetFrame::decode(&mut buffer), TelnetFrame::CSI(vec![0x1B, 0x5B, 0x7F, 0x7E]));
    assert_eq!(&buffer[..], &[0x30]);
}

#[test]
fn control_escape_without_parameters() {
    let mut buffer = buffer_of(&[0x1B, 0x5B, 0x5B]);
    assert_eq!(TelnetFrame::decode(&mut buffer), TelnetFrame::CSI(vec![0x1B, 0x5B, 0x5B]));
    assert!(buffer.is_empty());
}

#[test]
fn open_control_escape_is_pending() {
    let bytes = [0x1B, 0x5B, 0x31, 0x3B, 0x32];
    let mut buffer = buffer_of(&bytes);
    assert_eq!(TelnetFrame::decode(&mut buffer), TelnetFrame::Next);
    assert_eq!(&buffer[..], &bytes);

    let mut buffer = buffer_of(&[0x1B, 0x5B]);
    assert_eq!(TelnetFrame::decode(&mut buffer), TelnetFrame::Next);
    assert_eq!(&buffer[..], &[0x1B, 0x5B]);
}

#[test]
fn escape_without_bracket_is_pending() {
    let mut buffer = buffer_of(&[0x1B]);
    assert_eq!(TelnetFrame::decode(&mut buffer), TelnetFrame::Next);
    assert_eq!(&buffer[..], &[0x1B]);

    let mut buffer = buffer_of(&[0x1B, 0x41, 0x42]);
    assert_eq!(TelnetFrame::decode(&mut buffer), TelnetFrame::Next);
    assert_eq!(&buffer[..], &[0x1B, 0x41, 0x42]);
}

#[test]
fn empty_buffer_is_pending_every_time() {
    let mut buffer = BytesMut::new();
    for _ in 0..5 {
        assert_eq!(TelnetFrame::decode(&mut buffer), TelnetFrame::Next);
        assert!(buffer.is_empty());
    }
    assert_eq!(TelnetFrame::parse_iac(&mut buffer), None);
    assert_eq!(TelnetFrame::parse_csi(&mut buffer), None);
    assert_eq!(TelnetFrame::parse_data(&mut buffer), None);
}

#[test]
fn parse_data_refuses_a_leading_introducer() {
    let mut buffer = buffer_of(&[0xFF, 0x41]);
    assert_eq!(TelnetFrame::parse_data(&mut buffer), None);
    assert_eq!(&buffer[..], &[0xFF, 0x41]);

    let mut buffer = buffer_of(&[0x1B, 0x41]);
    assert_eq!(TelnetFrame::parse_data(&mut buffer), None);
    assert_eq!(&buffer[..], &[0x1B, 0x41]);
}

#[test]
fn round_trip_of_three_frames() {
    let command = vec![0xFF, 0xFA, 0x18, 0x01, 0xFF, 0xF0];
    let escape = vec![0x1B, 0x5B, 0x32, 0x4A];
    let data = b"ls -l\r\n".to_vec();
    let mut buffer = BytesMut::new();
    buffer.extend_from_slice(&command);
    buffer.extend_from_slice(&escape);
    buffer.extend_from_slice(&data);

    assert_eq!(TelnetFrame::decode(&mut buffer), TelnetFrame::IAC(command));
    assert_eq!(TelnetFrame::decode(&mut buffer), TelnetFrame::CSI(escape));
    assert_eq!(TelnetFrame::decode(&mut buffer), TelnetFrame::Data(data));
    assert_eq!(TelnetFrame::decode(&mut buffer), TelnetFrame::Next);
    assert!(buffer.is_empty());
}

#[test]
fn round_trip_with_a_three_byte_command() {
    let mut buffer = buffer_of(&[0xFF, 0xFC, 0x1F, 0x1B, 0x5B, 0x6D, 0x78]);
    assert_eq!(TelnetFrame::decode(&mut buffer), TelnetFrame::IAC(vec![0xFF, 0xFC, 0x1F]));
    assert_eq!(TelnetFrame::decode(&mut buffer), TelnetFrame::CSI(vec![0x1B, 0x5B, 0x6D]));
    assert_eq!(TelnetFrame::decode(&mut buffer), TelnetFrame::Data(vec![0x78]));
    assert_eq!(TelnetFrame::decode(&mut buffer), TelnetFrame::Next);
}

#[test]
fn command_decoding_comes_before_the_others() {
    // 0x5B is `[` and a final byte: as the option of a command it is neither
    let mut buffer = buffer_of(&[0xFF, 0x1B, 0x5B, 0x41]);
    assert_eq!(TelnetFrame::decode(&mut buffer), TelnetFrame::IAC(vec![0xFF, 0x1B, 0x5B]));
    assert_eq!(&buffer[..], &[0x41]);
}

#[test]
fn find_terminator_finds_the_first() {
    assert_eq!(find_terminator(&[]), None);
    assert_eq!(find_terminator(&[0xFF]), None);
    assert_eq!(find_terminator(&[0xF0, 0xFF]), None);
    assert_eq!(find_terminator(&[0xFF, 0xF0]), Some(0));
    assert_eq!(find_terminator(&[0x01, 0xFF, 0xFF, 0xF0, 0xFF, 0xF0]), Some(2));
}

#[test]
fn find_final_skips_the_introducer() {
    assert_eq!(find_final(&[]), None);
    assert_eq!(find_final(&[0x41, 0x41]), None);
    assert_eq!(find_final(&[0x41, 0x41, 0x3F]), None);
    assert_eq!(find_final(&[0x41, 0x41, 0x30, 0x7E, 0x40]), Some(3));
    assert_eq!(find_final(&[0x1B, 0x5B, 0x40]), Some(2));
    assert_eq!(find_final(&[0x1B, 0x5B, 0x7F]), None);
}

#[test]
fn find_introducer_finds_either() {
    assert_eq!(find_introducer(&[]), None);
    assert_eq!(find_introducer(&[0x00, 0xFE, 0x1A, 0x1C]), None);
    assert_eq!(find_introducer(&[0x00, 0x1B, 0xFF]), Some(1));
    assert_eq!(find_introducer(&[0xFF]), Some(0));
}
