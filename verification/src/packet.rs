use vstd::prelude::*;

use crate::prober::ActiveNetworkProber;

verus! {

/// What a response says about the probe that it answers.
#[derive(Clone, Copy, Debug, PartialEq, Eq, Structural)]
pub enum IcmpResponseType {
    /// The probe got to its destination.
    EchoReply,
    /// A router on the way dropped the probe.
    TimeExceeded,
}

/// The part of a response that tells which probe it answers.
#[derive(Clone, Copy, Debug, PartialEq, Eq, Structural)]
pub struct IcmpMatchMetadata {
    pub response_type: IcmpResponseType,
    pub process_identifier: u16,
    pub sequence_number: u16,
}

/// The 16-bit word in network byte order at an offset.
pub open spec fn word_at(bytes: Seq<u8>, at: int) -> int {
    bytes[at] * 0x100 + bytes[at + 1]
}

/// The same word as a value of its width.
pub open spec fn field_at(bytes: Seq<u8>, at: int) -> u16 {
    word_at(bytes, at) as u16
}

/// The sum of the 16-bit words in network byte order.
pub open spec fn word_sum(bytes: Seq<u8>) -> int
    decreases bytes.len(),
{
    if bytes.len() < 2 {
        0
    } else {
        word_sum(bytes.take(bytes.len() - 2)) + word_at(bytes, bytes.len() - 2)
    }
}

/// A sum folded to 16 bits by adding the carries back in.
pub open spec fn fold_carries(sum: int) -> int
    decreases sum,
{
    if sum < 0x1_0000 {
        sum
    } else {
        fold_carries(sum % 0x1_0000 + sum / 0x1_0000)
    }
}

/// An echo request with the given checksum.
pub open spec fn echo_request_with(
    checksum: int,
    sequence_number: u16,
    process_identifier: u16,
) -> Seq<u8> {
    seq![
        8u8,
        0u8,
        (checksum / 0x100) as u8,
        (checksum % 0x100) as u8,
        (process_identifier / 0x100) as u8,
        (process_identifier % 0x100) as u8,
        (sequence_number / 0x100) as u8,
        (sequence_number % 0x100) as u8,
    ]
}

/// The checksum of an echo request: the complement of the folded word sum of
/// the request without a checksum.
pub open spec fn echo_request_checksum(sequence_number: u16, process_identifier: u16) -> int {
    0xffff - fold_carries(word_sum(echo_request_with(0, sequence_number, process_identifier)))
}

/// The echo request of a probe.
pub open spec fn echo_request(sequence_number: u16, process_identifier: u16) -> Seq<u8> {
    echo_request_with(
        echo_request_checksum(sequence_number, process_identifier),
        sequence_number,
        process_identifier,
    )
}

/// Where the payload of the IPv4 packet at an offset starts, if a plausible
/// header stands there.
pub open spec fn payload_offset(packet: Seq<u8>, at: int) -> Option<int> {
    if packet.len() < at + 20 || packet[at] % 16 < 5 {
        None
    } else {
        Some(at + 4 * (packet[at] % 16))
    }
}

/// The identifier and sequence number of the echo message at an offset.
pub open spec fn echo_fields(
    packet: Seq<u8>,
    at: int,
    response_type: IcmpResponseType,
) -> Option<IcmpMatchMetadata> {
    if packet.len() < at + 8 {
        None
    } else {
        Some(
            IcmpMatchMetadata {
                response_type,
                process_identifier: field_at(packet, at + 4),
                sequence_number: field_at(packet, at + 6),
            },
        )
    }
}

/// What an IPv4 packet says about a probe: an echo reply names the probe
/// itself, a time-exceeded message quotes the packet that carried it.
pub open spec fn probe_metadata(packet: Seq<u8>) -> Option<IcmpMatchMetadata> {
    match payload_offset(packet, 0) {
        None => None,
        Some(message) => if packet.len() < message + 8 || packet[message + 1] != 0 {
            None
        } else if packet[message] == 0 {
            echo_fields(packet, message, IcmpResponseType::EchoReply)
        } else if packet[message] == 11 {
            match payload_offset(packet, message + 8) {
                Some(quoted) if packet[message + 8 + 9] == 1 => echo_fields(
                    packet,
                    quoted,
                    IcmpResponseType::TimeExceeded,
                ),
                _ => None,
            }
        } else {
            None
        },
    }
}

/// Whether the bytes are one IPv4 header, options and all.
pub open spec fn is_ip_header(header: Seq<u8>) -> bool {
    header.len() >= 20 && header.len() == 4 * (header[0] % 16)
}

/// Folding keeps a sum modulo 0xffff and leaves 16 bits, and only nothing
/// folds to nothing.
proof fn lemma_fold_carries(sum: int)
    requires
        0 <= sum,
    ensures
        0 <= fold_carries(sum) <= 0xffff,
        fold_carries(sum) % 0xffff == sum % 0xffff,
        sum > 0 ==> fold_carries(sum) > 0,
    decreases sum,
{
    if sum >= 0x1_0000 {
        lemma_fold_carries(sum % 0x1_0000 + sum / 0x1_0000);
    }
}

/// The word sum of an echo request.
proof fn lemma_request_word_sum(checksum: int, sequence_number: u16, process_identifier: u16)
    requires
        0 <= checksum <= 0xffff,
    ensures
        word_sum(echo_request_with(checksum, sequence_number, process_identifier)) == 0x800
            + checksum + process_identifier + sequence_number,
{
    let request = echo_request_with(checksum, sequence_number, process_identifier);
    reveal_with_fuel(word_sum, 5);
    assert(request.take(6).take(4) =~= request.take(4));
    assert(request.take(4).take(2) =~= request.take(2));
    assert(request.take(2).take(0) =~= request.take(0));
}

/// The checksum of an echo request makes the words of the request fold to all
/// ones, which is how a receiver checks it.
pub proof fn law_checksum_is_valid(sequence_number: u16, process_identifier: u16)
    ensures
        0 <= echo_request_checksum(sequence_number, process_identifier) <= 0xffff,
        fold_carries(word_sum(echo_request(sequence_number, process_identifier))) == 0xffff,
{
    let bare = word_sum(echo_request_with(0, sequence_number, process_identifier));
    lemma_request_word_sum(0, sequence_number, process_identifier);
    lemma_fold_carries(bare);
    let checksum = echo_request_checksum(sequence_number, process_identifier);
    lemma_request_word_sum(checksum, sequence_number, process_identifier);
    let full = word_sum(echo_request(sequence_number, process_identifier));
    lemma_fold_carries(full);
    assert(full % 0xffff == 0);
}

/// A reply that carries a probe's identifier and sequence number back is
/// recognised as the echo reply of that probe.
pub proof fn law_echo_reply_is_matched(
    header: Seq<u8>,
    reply: Seq<u8>,
    sequence_number: u16,
    process_identifier: u16,
)
    requires
        is_ip_header(header),
        reply.len() >= 8,
        reply[0] == 0,
        reply[1] == 0,
        reply.subrange(4, 8) == echo_request(sequence_number, process_identifier).subrange(4, 8),
    ensures
        probe_metadata(header + reply) == Some(
            IcmpMatchMetadata {
                response_type: IcmpResponseType::EchoReply,
                process_identifier,
                sequence_number,
            },
        ),
{
    let request = echo_request(sequence_number, process_identifier);
    assert forall|i: int| 4 <= i < 8 implies reply[i] == request[i] by {
        assert(reply.subrange(4, 8)[i - 4] == request.subrange(4, 8)[i - 4]);
    }
    assert forall|i: int| 0 <= i < reply.len() implies (header + reply)[header.len() + i]
        == reply[i] by {}
}

/// A time-exceeded message that quotes a probe's packet, header and request, is
/// recognised as naming that probe.
pub proof fn law_time_exceeded_is_matched(
    header: Seq<u8>,
    notice: Seq<u8>,
    quoted_header: Seq<u8>,
    rest: Seq<u8>,
    sequence_number: u16,
    process_identifier: u16,
)
    requires
        is_ip_header(header),
        notice.len() == 8,
        notice[0] == 11,
        notice[1] == 0,
        is_ip_header(quoted_header),
        quoted_header[9] == 1,
    ensures
        probe_metadata(
            header + notice + quoted_header + echo_request(sequence_number, process_identifier)
                + rest,
        ) == Some(
            IcmpMatchMetadata {
                response_type: IcmpResponseType::TimeExceeded,
                process_identifier,
                sequence_number,
            },
        ),
{
    let request = echo_request(sequence_number, process_identifier);
    let packet = header + notice + quoted_header + request + rest;
    assert(packet[0] == header[0]);
    let message = payload_offset(packet, 0)->0;
    let inner = message + 8;
    let quoted = inner + quoted_header.len();
    assert(packet[message] == notice[0] && packet[message + 1] == notice[1]);
    assert(packet[inner] == quoted_header[0] && packet[inner + 9] == quoted_header[9]);
    assert forall|i: int| 4 <= i < 8 implies packet[quoted + i] == request[i] by {}
}

/// A probe on its way out is never mistaken for a response.
pub proof fn law_request_is_not_a_response(
    header: Seq<u8>,
    sequence_number: u16,
    process_identifier: u16,
)
    requires
        is_ip_header(header),
    ensures
        probe_metadata(header + echo_request(sequence_number, process_identifier)) is None,
{
    let packet = header + echo_request(sequence_number, process_identifier);
    assert(packet[0] == header[0]);
    let message = payload_offset(packet, 0)->0;
    assert(packet[message] == 8);
}

/// The two bytes of a word.
proof fn lemma_word_bytes(word: u16)
    ensures
        word >> 8 == word / 0x100,
        word & 0xff == word % 0x100,
{
    assert(word >> 8 == word / 0x100) by (bit_vector);
    assert(word & 0xff == word % 0x100) by (bit_vector);
}

/// The word of two bytes.
proof fn lemma_word_of_bytes(high: u8, low: u8)
    ensures
        ((high as u32) << 8 | (low as u32)) == high * 0x100 + low,
{
    assert(((high as u32) << 8 | (low as u32)) == high * 0x100 + low) by (bit_vector);
}

/// The two halves of a sum.
proof fn lemma_halves(sum: u32)
    ensures
        sum >> 16 == sum / 0x1_0000,
        sum & 0xffff == sum % 0x1_0000,
{
    assert(sum >> 16 == sum / 0x1_0000) by (bit_vector);
    assert(sum & 0xffff == sum % 0x1_0000) by (bit_vector);
}

/// The complement of a folded sum.
proof fn lemma_complement(sum: u32)
    requires
        sum < 0x1_0000,
    ensures
        !(sum as u16) == 0xffff - sum,
{
    assert(!(sum as u16) == 0xffff - sum) by (bit_vector)
        requires
            sum < 0x1_0000,
    ;
}

/// Reads the 16-bit word in network byte order at an offset.
fn read_word(bytes: &[u8], at: usize) -> (word: u16)
    requires
        at + 1 < bytes@.len(),
    ensures
        word == word_at(bytes@, at as int),
{
    bytes[at] as u16 * 0x100 + bytes[at + 1] as u16
}

/// Reads a header length in bytes, which counts 32-bit words in the low half
/// of the header's first byte.
fn header_length(first_byte: u8) -> (length: usize)
    ensures
        length == 4 * (first_byte % 16),
{
    assert(first_byte & 0x0f == first_byte % 16) by (bit_vector);
    (first_byte & 0x0f) as usize * 4
}

impl ActiveNetworkProber {
    /// Reads from a received IPv4 packet which probe it answers, and how.
    pub fn extract_probe_metadata(packet_data: &[u8]) -> (metadata: Option<IcmpMatchMetadata>)
        ensures
            metadata == probe_metadata(packet_data@),
    {
        let len: usize = packet_data.len();
        if len < 20 {
            return None;
        }
        let message: usize = header_length(packet_data[0]);
        if message < 20 {
            return None;
        }
        if len < message + 8 {
            return None;
        }
        let message_type: u8 = packet_data[message];
        let message_code: u8 = packet_data[message + 1];
        if message_code != 0 {
            return None;
        }
        match message_type {
            0 => Some(
                IcmpMatchMetadata {
                    response_type: IcmpResponseType::EchoReply,
                    process_identifier: read_word(packet_data, message + 4),
                    sequence_number: read_word(packet_data, message + 6),
                },
            ),
            11 => {
                let inner: usize = message + 8;
                if len < inner + 20 {
                    return None;
                }
                let inner_length: usize = header_length(packet_data[inner]);
                if inner_length < 20 {
                    return None;
                }
                let quoted: usize = inner + inner_length;
                if len < quoted + 8 {
                    return None;
                }
                if packet_data[inner + 9] != 1 {
                    return None;
                }
                Some(
                    IcmpMatchMetadata {
                        response_type: IcmpResponseType::TimeExceeded,
                        process_identifier: read_word(packet_data, quoted + 4),
                        sequence_number: read_word(packet_data, quoted + 6),
                    },
                )
            },
            _ => None,
        }
    }

    /// Builds the echo request of a probe, checksum included.
    pub fn build_echo_request(sequence_number: u16, process_identifier: u16) -> (packet: [u8; 8])
        ensures
            packet@ == echo_request(sequence_number, process_identifier),
    {
        let mut packet: [u8; 8] = [0u8; 8];
        packet[0] = 8;
        packet[1] = 0;
        packet[4] = (process_identifier >> 8) as u8;
        packet[5] = (process_identifier & 0xff) as u8;
        packet[6] = (sequence_number >> 8) as u8;
        packet[7] = (sequence_number & 0xff) as u8;
        proof {
            lemma_word_bytes(process_identifier);
            lemma_word_bytes(sequence_number);
            assert(packet@ =~= echo_request_with(0, sequence_number, process_identifier));
        }

        let mut sum: u32 = 0;
        let mut at: usize = 0;
        while at < 8
            invariant
                at <= 8,
                at % 2 == 0,
                packet@.len() == 8,
                sum == word_sum(packet@.take(at as int)),
                sum <= at * 0x8000,
            decreases 8 - at,
        {
            proof {
                assert(packet@.take(at + 2).take(at as int) =~= packet@.take(at as int));
                lemma_word_of_bytes(packet[at as int], packet[at + 1]);
            }
            sum = sum + ((packet[at] as u32) << 8 | (packet[at + 1] as u32));
            at = at + 2;
        }
        assert(packet@.take(8) =~= packet@);
        let ghost bare = word_sum(packet@);
        proof {
            lemma_fold_carries(bare);
        }
        while (sum >> 16) > 0
            invariant
                fold_carries(sum as int) == fold_carries(bare),
            decreases sum,
        {
            proof {
                lemma_halves(sum);
            }
            sum = (sum & 0xffff) + (sum >> 16);
        }
        proof {
            lemma_halves(sum);
            lemma_complement(sum);
        }
        let checksum: u16 = !(sum as u16);
        proof {
            lemma_word_bytes(checksum);
        }
        packet[2] = (checksum >> 8) as u8;
        packet[3] = (checksum & 0xff) as u8;
        packet
    }
}

/// An echo request is eight bytes: the type 8 and the code 0, a checksum, the
/// identifier and the sequence number, each with its high byte first. The checksum
/// makes the sum of the four words a multiple of 0xffff, and is not 0xffff.
pub proof fn law_request_carries_its_fields(sequence_number: u16, process_identifier: u16)
    ensures
        ({
            let request = echo_request(sequence_number, process_identifier);
            &&& request.len() == 8
            &&& request[0] == 8 && request[1] == 0
            &&& request[4] * 256 + request[5] == process_identifier
            &&& request[6] * 256 + request[7] == sequence_number
            &&& (0x800 + request[2] * 256 + request[3] + process_identifier + sequence_number)
                % 0xffff == 0
            &&& request[2] * 256 + request[3] != 0xffff
        }),
{
    let bare = word_sum(echo_request_with(0, sequence_number, process_identifier));
    lemma_request_word_sum(0, sequence_number, process_identifier);
    lemma_fold_carries(bare);
}

/// A packet is taken for an echo reply exactly if behind a header of at least
/// five words there are at least eight bytes that start with the type 0 and the
/// code 0. The fifth and the sixth of them are the identifier, the seventh and the
/// eighth the sequence number.
pub proof fn law_echo_reply_is_read_from_its_place(packet: Seq<u8>)
    ensures
        ({
            let start = 4 * (packet[0] % 16);
            let read = probe_metadata(packet);
            &&& (read matches Some(found) && found.response_type is EchoReply) <==> packet.len()
                >= start + 8 && start >= 20 && packet[start] == 0 && packet[start + 1] == 0
            &&& read matches Some(found) ==> (found.response_type is EchoReply ==> {
                &&& found.process_identifier == packet[start + 4] * 256 + packet[start + 5]
                &&& found.sequence_number == packet[start + 6] * 256 + packet[start + 7]
            })
        }),
{
}

/// A packet is taken for a time-exceeded message exactly if behind a header of at
/// least five words there are eight bytes that start with the type 11 and the code
/// 0, and behind them another header of at least five words, for the protocol 1,
/// and eight bytes more. Of those, the fifth and the sixth are the identifier, the
/// seventh and the eighth the sequence number.
pub proof fn law_time_exceeded_is_read_from_its_place(packet: Seq<u8>)
    ensures
        ({
            let start = 4 * (packet[0] % 16);
            let inner = start + 8;
            let quoted = inner + 4 * (packet[inner] % 16);
            let read = probe_metadata(packet);
            &&& (read matches Some(found) && found.response_type is TimeExceeded) <==> start >= 20
                && packet.len() >= inner + 20 && packet[start] == 11 && packet[start + 1] == 0
                && quoted >= inner + 20 && packet.len() >= quoted + 8 && packet[inner + 9] == 1
            &&& read matches Some(found) ==> (found.response_type is TimeExceeded ==> {
                &&& found.process_identifier == packet[quoted + 4] * 256 + packet[quoted + 5]
                &&& found.sequence_number == packet[quoted + 6] * 256 + packet[quoted + 7]
            })
        }),
{
}

} // verus!
