use mtr::packet::{IcmpMatchMetadata, IcmpResponseType};
use mtr::prober::ActiveNetworkProber;

fn ip_header(words: u8, protocol: u8) -> Vec<u8> {
    let mut header = vec![0u8; words as usize * 4];
    header[0] = 0x40 + words;
    header[9] = protocol;
    header
}

fn echo_reply(words: u8, identifier: u16, sequence: u16) -> Vec<u8> {
    let mut packet = ip_header(words, 1);
    packet.extend_from_slice(&[0, 0, 0xab, 0xcd]);
    packet.extend_from_slice(&identifier.to_be_bytes());
    packet.extend_from_slice(&sequence.to_be_bytes());
    packet
}

fn time_exceeded(words: u8, inner_words: u8, protocol: u8, request: [u8; 8]) -> Vec<u8> {
    let mut packet = ip_header(words, 1);
    packet.extend_from_slice(&[11, 0, 0, 0, 0, 0, 0, 0]);
    packet.extend_from_slice(&ip_header(inner_words, protocol));
    packet.extend_from_slice(&request);
    packet
}

fn folded_sum(bytes: &[u8]) -> u32 {
    let mut sum: u32 = 0;
    for pair in bytes.chunks(2) {
        sum += u32::from(u16::from_be_bytes([pair[0], pair[1]]));
    }
    while sum > 0xffff {
        sum = (sum & 0xffff) + (sum >> 16);
    }
    sum
}

#[test]
fn a_request_has_its_fields_and_checksum() {
    assert_eq!(ActiveNetworkProber::build_echo_request(0, 0), [8, 0, 0xf7, 0xff, 0, 0, 0, 0]);
    assert_eq!(
        ActiveNetworkProber::build_echo_request(0x0102, 0xabcd),
        [8, 0, 0x4b, 0x30, 0xab, 0xcd, 0x01, 0x02]
    );
    assert_eq!(
        ActiveNetworkProber::build_echo_request(0xffff, 0xffff),
        [8, 0, 0xf7, 0xff, 0xff, 0xff, 0xff, 0xff]
    );
}

#[test]
fn a_receiver_accepts_the_checksum() {
    for sequence in [0u16, 1, 255, 256, 0x7fff, 0xf7ff, 0xffff] {
        for identifier in [0u16, 2, 0x00ff, 0x8000, 0xf800, 0xffff] {
            let request = ActiveNetworkProber::build_echo_request(sequence, identifier);
            assert_eq!(folded_sum(&request), 0xffff);
        }
    }
}

#[test]
fn an_echo_reply_names_its_probe() {
    for words in [5u8, 6, 15] {
        assert_eq!(
            ActiveNetworkProber::extract_probe_metadata(&echo_reply(words, 0x1234, 0xfffe)),
            Some(IcmpMatchMetadata {
                response_type: IcmpResponseType::EchoReply,
                process_identifier: 0x1234,
                sequence_number: 0xfffe,
            })
        );
    }
}

#[test]
fn a_time_exceeded_message_names_the_quoted_probe() {
    let request = ActiveNetworkProber::build_echo_request(513, 0x9876);
    for (words, inner_words) in [(5u8, 5u8), (6, 5), (5, 8), (15, 15)] {
        assert_eq!(
            ActiveNetworkProber::extract_probe_metadata(&time_exceeded(
                words,
                inner_words,
                1,
                request
            )),
            Some(IcmpMatchMetadata {
                response_type: IcmpResponseType::TimeExceeded,
                process_identifier: 0x9876,
                sequence_number: 513,
            })
        );
    }
}

#[test]
fn a_request_is_no_response() {
    let mut packet = ip_header(5, 1);
    packet.extend_from_slice(&ActiveNetworkProber::build_echo_request(7, 8));
    assert_eq!(ActiveNetworkProber::extract_probe_metadata(&packet), None);
}

#[test]
fn short_packets_say_nothing() {
    let reply = echo_reply(5, 1, 2);
    for len in 0..reply.len() {
        assert_eq!(ActiveNetworkProber::extract_probe_metadata(&reply[..len]), None);
    }
    let request = ActiveNetworkProber::build_echo_request(1, 2);
    let notice = time_exceeded(5, 6, 1, request);
    for len in 0..notice.len() {
        assert_eq!(ActiveNetworkProber::extract_probe_metadata(&notice[..len]), None);
    }
    assert!(ActiveNetworkProber::extract_probe_metadata(&notice).is_some());
}

#[test]
fn implausible_packets_say_nothing() {
    let request = ActiveNetworkProber::build_echo_request(1, 2);

    let mut short_header = echo_reply(5, 1, 2);
    short_header[0] = 0x44;
    assert_eq!(ActiveNetworkProber::extract_probe_metadata(&short_header), None);

    let mut coded_reply = echo_reply(5, 1, 2);
    coded_reply[21] = 1;
    assert_eq!(ActiveNetworkProber::extract_probe_metadata(&coded_reply), None);

    let mut reassembly = time_exceeded(5, 5, 1, request);
    reassembly[21] = 1;
    assert_eq!(ActiveNetworkProber::extract_probe_metadata(&reassembly), None);

    let mut short_inner = time_exceeded(5, 5, 1, request);
    short_inner[28] = 0x43;
    assert_eq!(ActiveNetworkProber::extract_probe_metadata(&short_inner), None);

    let quoted_udp = time_exceeded(5, 5, 17, request);
    assert_eq!(ActiveNetworkProber::extract_probe_metadata(&quoted_udp), None);

    let mut unreachable_port = time_exceeded(5, 5, 1, request);
    unreachable_port[20] = 3;
    assert_eq!(ActiveNetworkProber::extract_probe_metadata(&unreachable_port), None);
}
