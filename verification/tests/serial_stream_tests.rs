use imu_core::serial::{candidate_names, normalize_serial_port_name, powershell_quoted, HostOs};
use imu_core::stream::{json_candidate, push_bounded, Candidate, InputMode, StreamSplitter, STREAM_BUFFER_LIMIT};

#[test]
fn high_com_ports_get_the_device_path() {
    assert_eq!(normalize_serial_port_name("COM15", HostOs::Windows), r"\\.\COM15");
    assert_eq!(normalize_serial_port_name("com10", HostOs::Windows), r"\\.\com10");
    assert_eq!(normalize_serial_port_name("COM+12", HostOs::Windows), r"\\.\COM+12");
}

#[test]
fn other_names_are_kept() {
    assert_eq!(normalize_serial_port_name("COM3", HostOs::Windows), "COM3");
    assert_eq!(normalize_serial_port_name("COM9", HostOs::Windows), "COM9");
    assert_eq!(normalize_serial_port_name("/dev/ttyUSB0", HostOs::Windows), "/dev/ttyUSB0");
    assert_eq!(normalize_serial_port_name("COMX", HostOs::Windows), "COMX");
    assert_eq!(normalize_serial_port_name("COM", HostOs::Windows), "COM");
    assert_eq!(normalize_serial_port_name("COM99999999999", HostOs::Windows), "COM99999999999");
}

#[test]
fn candidates_list_the_name_then_the_device_path() {
    assert_eq!(candidate_names("COM15", HostOs::Windows), vec![String::from("COM15"), String::from(r"\\.\COM15")]);
    assert_eq!(candidate_names("COM4", HostOs::Windows), vec![String::from("COM4")]);
}

#[test]
fn bounded_buffer_restarts_when_full() {
    let mut buffer = vec![1u8, 2, 3];
    push_bounded(&mut buffer, 4, 3);
    assert_eq!(buffer, vec![4]);
    push_bounded(&mut buffer, 5, 3);
    assert_eq!(buffer, vec![4, 5]);
}

#[test]
fn json_mode_splits_lines() {
    let mut splitter = StreamSplitter::new(InputMode::Json);
    let mut out = Vec::new();
    for b in b"{\"a\":1}\n\0x\n" {
        if let Some(c) = splitter.feed(*b) {
            out.push(c);
        }
    }
    assert_eq!(
        out,
        vec![Candidate::Line(b"{\"a\":1}".to_vec()), Candidate::Line(vec![0, b'x'])]
    );
}

#[test]
fn binary_mode_splits_packets_with_terminator() {
    let mut splitter = StreamSplitter::new(InputMode::Binary);
    let mut out = Vec::new();
    for b in [3u8, 10, 7, 0, 0] {
        if let Some(c) = splitter.feed(b) {
            out.push(c);
        }
    }
    assert_eq!(out, vec![Candidate::Packet(vec![3, 10, 7, 0]), Candidate::Packet(vec![0])]);
}

#[test]
fn auto_mode_feeds_both_buffers_and_settles() {
    let mut splitter = StreamSplitter::new(InputMode::Auto);
    assert_eq!(splitter.feed(b'a'), None);
    assert_eq!(splitter.feed(0), Some(Candidate::Packet(vec![b'a', 0])));
    assert_eq!(splitter.feed(b'\n'), Some(Candidate::Line(vec![b'a'])));
    assert_eq!(splitter.parsed(true), "auto -> binary");
    assert_eq!(splitter.mode, InputMode::Binary);
    assert_eq!(splitter.parsed(true), "binary stream");
    let mut json = StreamSplitter::new(InputMode::Auto);
    assert_eq!(json.parsed(false), "auto -> json");
    assert_eq!(json.mode, InputMode::Json);
}

#[test]
fn overlong_lines_are_discarded() {
    let mut splitter = StreamSplitter::new(InputMode::Json);
    for _ in 0..STREAM_BUFFER_LIMIT {
        assert_eq!(splitter.feed(b'x'), None);
    }
    assert_eq!(splitter.line.len(), STREAM_BUFFER_LIMIT);
    assert_eq!(splitter.feed(b'y'), None);
    assert_eq!(splitter.feed(b'\n'), Some(Candidate::Line(vec![b'y'])));
}

#[test]
fn silence_is_reported_once_after_twenty_empty_reads() {
    let mut splitter = StreamSplitter::new(InputMode::Auto);
    for _ in 0..19 {
        assert!(!splitter.idle());
    }
    assert!(splitter.idle());
    assert!(!splitter.idle());
    splitter.data_received();
    assert_eq!(splitter.idle_count, 0);
    splitter.parsed(false);
    for _ in 0..25 {
        assert!(!splitter.idle());
    }
}

#[test]
fn json_candidate_starts_at_first_brace() {
    assert_eq!(json_candidate("noise {\"a\":{}} x"), Some(String::from("{\"a\":{}} x")));
    assert_eq!(json_candidate("{}"), Some(String::from("{}")));
    assert_eq!(json_candidate("no object"), None);
    assert_eq!(json_candidate("é{1"), Some(String::from("{1")));
}

#[test]
fn other_systems_keep_every_name() {
    assert_eq!(normalize_serial_port_name("COM15", HostOs::Other), "COM15");
    assert_eq!(candidate_names("COM15", HostOs::Other), vec![String::from("COM15")]);
    assert_eq!(normalize_serial_port_name("/dev/ttyACM0", HostOs::Other), "/dev/ttyACM0");
}

#[test]
fn powershell_quotes_are_doubled() {
    assert_eq!(powershell_quoted("COM3"), "COM3");
    assert_eq!(powershell_quoted("it's 'x'"), "it''s ''x''");
    assert_eq!(powershell_quoted(""), "");
}
