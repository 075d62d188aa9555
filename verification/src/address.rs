use vstd::prelude::*;

use crate::text::{decimal, decimal_text, digit_char, is_digit, law_decimal_is_injective, lemma_decimal_shape};

verus! {

/// An IPv4 address, held as one number with the first octet on top.
#[derive(Clone, Copy, Debug, PartialEq, Eq, Structural)]
pub struct Ipv4Address {
    pub bits: u32,
}

impl Ipv4Address {
    /// The octets, from the first to the last.
    pub open spec fn spec_octets(self) -> (int, int, int, int) {
        (
            self.bits as int / 0x100 / 0x100 / 0x100,
            self.bits as int / 0x100 / 0x100 % 0x100,
            self.bits as int / 0x100 % 0x100,
            self.bits as int % 0x100,
        )
    }

    /// The dotted decimal notation.
    pub open spec fn dotted(self) -> Seq<char> {
        let o = self.spec_octets();
        decimal(o.0 as nat) + seq!['.'] + decimal(o.1 as nat) + seq!['.'] + decimal(o.2 as nat)
            + seq!['.'] + decimal(o.3 as nat)
    }

    /// Builds an address from its octets.
    pub fn new(a: u8, b: u8, c: u8, d: u8) -> (address: Ipv4Address)
        ensures
            address.spec_octets() == (a as int, b as int, c as int, d as int),
    {
        let upper: u32 = a as u32 * 0x100 + b as u32;
        let most: u32 = upper * 0x100 + c as u32;
        let bits: u32 = most * 0x100 + d as u32;
        assert(bits / 0x100 == most && most / 0x100 == upper && upper / 0x100 == a);
        Ipv4Address { bits }
    }

    /// The octets, from the first to the last.
    pub fn octets(self) -> (octets: [u8; 4])
        ensures
            octets@.len() == 4,
            (octets@[0] as int, octets@[1] as int, octets@[2] as int, octets@[3] as int)
                == self.spec_octets(),
    {
        [
            (self.bits / 0x100 / 0x100 / 0x100) as u8,
            (self.bits / 0x100 / 0x100 % 0x100) as u8,
            (self.bits / 0x100 % 0x100) as u8,
            (self.bits % 0x100) as u8,
        ]
    }

    /// Writes the dotted decimal notation.
    pub fn to_text(self) -> (text: String)
        ensures
            text@ == self.dotted(),
    {
        proof {
            reveal_strlit(".");
            assert("."@ =~= seq!['.']);
        }
        let mut text = decimal_text(self.bits / 0x100 / 0x100 / 0x100);
        text.append(".");
        text.append(decimal_text(self.bits / 0x100 / 0x100 % 0x100).as_str());
        text.append(".");
        text.append(decimal_text(self.bits / 0x100 % 0x100).as_str());
        text.append(".");
        text.append(decimal_text(self.bits % 0x100).as_str());
        text
    }

    /// Reads a dotted decimal notation: four octets without leading zeros and
    /// nothing else.
    pub fn parse(text: &str) -> (address: Option<Ipv4Address>)
        ensures
            forall|a: Ipv4Address| address == Some(a) <==> text@ == #[trigger] a.dotted(),
    {
        let len: usize = text.unicode_len();
        proof {
            assert forall|ip: Ipv4Address| text@ == #[trigger] ip.dotted() implies dotted_parts(
                text@,
                ip,
            ) by {
                lemma_dotted_parts(ip);
            }
        }
        let (a, first): (u8, usize) = match read_octet(text, len, 0) {
            Some(read) => read,
            None => return None,
        };
        proof {
            assert forall|ip: Ipv4Address| text@ == #[trigger] ip.dotted() implies first == octet_ends(
                ip,
            ).0 && a == ip.spec_octets().0 by {
                lemma_octet_is_unique(
                    text@,
                    0,
                    first as int,
                    a as int,
                    octet_ends(ip).0,
                    ip.spec_octets().0,
                );
            }
        }
        if first >= len || text.get_char(first) != '.' {
            return None;
        }
        let (b, second): (u8, usize) = match read_octet(text, len, first + 1) {
            Some(read) => read,
            None => return None,
        };
        proof {
            assert forall|ip: Ipv4Address| text@ == #[trigger] ip.dotted() implies second == octet_ends(
                ip,
            ).1 && b == ip.spec_octets().1 by {
                lemma_octet_is_unique(
                    text@,
                    first + 1,
                    second as int,
                    b as int,
                    octet_ends(ip).1,
                    ip.spec_octets().1,
                );
            }
        }
        if second >= len || text.get_char(second) != '.' {
            return None;
        }
        let (c, third): (u8, usize) = match read_octet(text, len, second + 1) {
            Some(read) => read,
            None => return None,
        };
        proof {
            assert forall|ip: Ipv4Address| text@ == #[trigger] ip.dotted() implies third == octet_ends(
                ip,
            ).2 && c == ip.spec_octets().2 by {
                lemma_octet_is_unique(
                    text@,
                    second + 1,
                    third as int,
                    c as int,
                    octet_ends(ip).2,
                    ip.spec_octets().2,
                );
            }
        }
        if third >= len || text.get_char(third) != '.' {
            return None;
        }
        let (d, last): (u8, usize) = match read_octet(text, len, third + 1) {
            Some(read) => read,
            None => return None,
        };
        proof {
            assert forall|ip: Ipv4Address| text@ == #[trigger] ip.dotted() implies last == octet_ends(
                ip,
            ).3 && d == ip.spec_octets().3 by {
                lemma_octet_is_unique(
                    text@,
                    third + 1,
                    last as int,
                    d as int,
                    octet_ends(ip).3,
                    ip.spec_octets().3,
                );
            }
        }
        if last != len {
            return None;
        }
        let address = Ipv4Address::new(a, b, c, d);
        assert(text@ =~= text@.subrange(0, first as int) + seq!['.'] + text@.subrange(
            first + 1,
            second as int,
        ) + seq!['.'] + text@.subrange(second + 1, third as int) + seq!['.'] + text@.subrange(
            third + 1,
            last as int,
        ));
        proof {
            assert forall|ip: Ipv4Address| text@ == #[trigger] ip.dotted() implies ip == address by {
                law_dotted_is_injective(ip, address);
            }
        }
        Some(address)
    }
}

/// Whether the digits of an octet stand from `from` to `to`, and no digit
/// follows them.
pub open spec fn octet_at(s: Seq<char>, from: int, to: int, octet: int) -> bool {
    &&& 0 <= octet < 256
    &&& 0 <= from < to <= s.len()
    &&& s.subrange(from, to) == decimal(octet as nat)
    &&& to == s.len() || !is_digit(s[to])
}

/// Where the four octets of a dotted notation end.
spec fn octet_ends(address: Ipv4Address) -> (int, int, int, int) {
    let o = address.spec_octets();
    let first = decimal(o.0 as nat).len() as int;
    let second = first + 1 + decimal(o.1 as nat).len();
    let third = second + 1 + decimal(o.2 as nat).len();
    (first, second, third, third + 1 + decimal(o.3 as nat).len())
}

/// Whether a text is made of the octets of an address with dots between them.
spec fn dotted_parts(s: Seq<char>, address: Ipv4Address) -> bool {
    let o = address.spec_octets();
    let e = octet_ends(address);
    &&& octet_at(s, 0, e.0, o.0)
    &&& e.0 < s.len() && s[e.0] == '.'
    &&& octet_at(s, e.0 + 1, e.1, o.1)
    &&& e.1 < s.len() && s[e.1] == '.'
    &&& octet_at(s, e.1 + 1, e.2, o.2)
    &&& e.2 < s.len() && s[e.2] == '.'
    &&& octet_at(s, e.2 + 1, e.3, o.3)
    &&& e.3 == s.len()
}

proof fn lemma_dotted_parts(address: Ipv4Address)
    ensures
        dotted_parts(address.dotted(), address),
{
    let s = address.dotted();
    let o = address.spec_octets();
    let e = octet_ends(address);
    lemma_decimal_shape(o.0 as nat);
    lemma_decimal_shape(o.1 as nat);
    lemma_decimal_shape(o.2 as nat);
    lemma_decimal_shape(o.3 as nat);
    assert(s.subrange(0, e.0) =~= decimal(o.0 as nat));
    assert(s.subrange(e.0 + 1, e.1) =~= decimal(o.1 as nat));
    assert(s.subrange(e.1 + 1, e.2) =~= decimal(o.2 as nat));
    assert(s.subrange(e.2 + 1, e.3) =~= decimal(o.3 as nat));
}

/// At most one octet stands at a place.
proof fn lemma_octet_is_unique(s: Seq<char>, from: int, to: int, octet: int, other_to: int, other: int)
    requires
        octet_at(s, from, to, octet),
        octet_at(s, from, other_to, other),
    ensures
        to == other_to,
        octet == other,
{
    lemma_decimal_shape(octet as nat);
    lemma_decimal_shape(other as nat);
    if to < other_to {
        assert(s[to] == decimal(other as nat)[to - from]);
    }
    if other_to < to {
        assert(s[other_to] == decimal(octet as nat)[other_to - from]);
    }
    law_decimal_is_injective(octet as nat, other as nat);
}

/// Different addresses have different dotted notations.
pub proof fn law_dotted_is_injective(a: Ipv4Address, b: Ipv4Address)
    requires
        a.dotted() == b.dotted(),
    ensures
        a == b,
{
    let s = a.dotted();
    lemma_dotted_parts(a);
    lemma_dotted_parts(b);
    let (d, e) = (octet_ends(a), octet_ends(b));
    let (o, p) = (a.spec_octets(), b.spec_octets());
    lemma_octet_is_unique(s, 0, d.0, o.0, e.0, p.0);
    lemma_octet_is_unique(s, d.0 + 1, d.1, o.1, e.1, p.1);
    lemma_octet_is_unique(s, d.1 + 1, d.2, o.2, e.2, p.2);
    lemma_octet_is_unique(s, d.2 + 1, d.3, o.3, e.3, p.3);
}

/// The digits of an octet.
proof fn lemma_octet_digits(octet: int)
    requires
        0 <= octet < 256,
    ensures
        octet < 10 ==> decimal(octet as nat) == seq![digit_char(octet)],
        10 <= octet < 100 ==> decimal(octet as nat) == seq![
            digit_char(octet / 10),
            digit_char(octet % 10),
        ],
        octet >= 100 ==> decimal(octet as nat) == seq![
            digit_char(octet / 100),
            digit_char(octet / 10 % 10),
            digit_char(octet % 10),
        ],
{
    reveal_with_fuel(decimal, 3);
    if octet >= 100 {
        assert(octet / 10 / 10 == octet / 100);
        assert(decimal(octet as nat) =~= seq![
            digit_char(octet / 100),
            digit_char(octet / 10 % 10),
            digit_char(octet % 10),
        ]);
    } else if octet >= 10 {
        assert(decimal(octet as nat) =~= seq![digit_char(octet / 10), digit_char(octet % 10)]);
    }
}

/// The value of a digit, if the character is one.
fn digit_value(c: char) -> (digit: Option<u32>)
    ensures
        digit is Some <==> is_digit(c),
        digit matches Some(d) ==> d < 10 && c == digit_char(d as int),
{
    let code: u32 = c as u32;
    if 48 <= code && code <= 57 {
        Some(code - 48)
    } else {
        None
    }
}

/// The value of the digit at a place, if one stands there.
fn digit_at(text: &str, len: usize, at: usize) -> (digit: Option<u32>)
    requires
        len == text@.len(),
    ensures
        digit is Some <==> at < text@.len() && is_digit(text@[at as int]),
        digit matches Some(d) ==> d < 10 && text@[at as int] == digit_char(d as int),
{
    if at < len {
        digit_value(text.get_char(at))
    } else {
        None
    }
}

/// Whether the digits of an octet fill the places from `from` to `to`.
spec fn octet_reads(s: Seq<char>, from: int, to: int, octet: int) -> bool {
    &&& octet < 10 ==> to == from + 1 && s[from] == digit_char(octet)
    &&& 10 <= octet < 100 ==> to == from + 2 && s[from] == digit_char(octet / 10) && s[from + 1]
        == digit_char(octet % 10)
    &&& octet >= 100 ==> to == from + 3 && s[from] == digit_char(octet / 100) && s[from + 1]
        == digit_char(octet / 10 % 10) && s[from + 2] == digit_char(octet % 10)
}

/// An octet that stands at a place has the digits that stand there.
proof fn lemma_octet_reads(s: Seq<char>, from: int, to: int, octet: int)
    requires
        octet_at(s, from, to, octet),
    ensures
        octet_reads(s, from, to, octet),
{
    lemma_octet_digits(octet);
    let run = s.subrange(from, to);
    assert(run.len() == to - from);
    assert(run == decimal(octet as nat));
    assert(run[0] == s[from]);
    if octet >= 100 {
        assert(run.len() == 3);
        assert(run[1] == s[from + 1] && run[2] == s[from + 2]);
    } else if octet >= 10 {
        assert(run.len() == 2);
        assert(run[1] == s[from + 1]);
    }
}

/// Reads the octet that starts at `from` and says where it ends.
fn read_octet(text: &str, len: usize, from: usize) -> (read: Option<(u8, usize)>)
    requires
        len == text@.len(),
        from <= len,
    ensures
        read matches Some((octet, to)) ==> octet_at(text@, from as int, to as int, octet as int),
        read is None ==> forall|octet: int, to: int|
            !#[trigger] octet_at(text@, from as int, to, octet),
{
    proof {
        assert forall|octet: int, to: int| #[trigger]
            octet_at(text@, from as int, to, octet) implies octet_reads(
            text@,
            from as int,
            to,
            octet,
        ) by {
            lemma_octet_reads(text@, from as int, to, octet);
        }
    }
    let first: u32 = match digit_at(text, len, from) {
        Some(digit) => digit,
        None => return None,
    };
    let second: u32 = match digit_at(text, len, from + 1) {
        Some(digit) => digit,
        None => {
            proof {
                lemma_octet_digits(first as int);
                assert(text@.subrange(from as int, from + 1) =~= decimal(first as nat));
            }
            return Some((first as u8, from + 1));
        },
    };
    if first == 0 {
        return None;
    }
    let third: u32 = match digit_at(text, len, from + 2) {
        Some(digit) => digit,
        None => {
            let octet: u32 = first * 10 + second;
            proof {
                lemma_octet_digits(octet as int);
                assert(text@.subrange(from as int, from + 2) =~= decimal(octet as nat));
            }
            return Some((octet as u8, from + 2));
        },
    };
    if digit_at(text, len, from + 3).is_some() {
        return None;
    }
    let octet: u32 = first * 100 + second * 10 + third;
    if octet > 255 {
        return None;
    }
    proof {
        lemma_octet_digits(octet as int);
        assert(text@.subrange(from as int, from + 3) =~= decimal(octet as nat));
    }
    Some((octet as u8, from + 3))
}

/// The octets of an address are the digits of its number to the base of 256, and
/// the dotted notation is made of their decimal notations, the first octet first.
pub proof fn law_address_is_made_of_its_octets(address: Ipv4Address, a: u8, b: u8, c: u8, d: u8)
    requires
        address.bits == a * 0x100_0000 + b * 0x1_0000 + c * 0x100 + d,
    ensures
        address.spec_octets() == (a as int, b as int, c as int, d as int),
        address.dotted() == decimal(a as nat) + seq!['.'] + decimal(b as nat) + seq!['.'] + decimal(
            c as nat,
        ) + seq!['.'] + decimal(d as nat),
{
    let bits = address.bits as int;
    let upper = a * 0x100 + b;
    let most = upper * 0x100 + c;
    assert(bits == most * 0x100 + d);
    assert(bits / 0x100 == most && most / 0x100 == upper && upper / 0x100 == a);
}

/// An address that was built from octets is the number with those octets.
pub proof fn law_octets_make_the_number(address: Ipv4Address)
    ensures
        ({
            let o = address.spec_octets();
            &&& 0 <= o.0 < 256 && 0 <= o.1 < 256 && 0 <= o.2 < 256 && 0 <= o.3 < 256
            &&& address.bits == o.0 * 0x100_0000 + o.1 * 0x1_0000 + o.2 * 0x100 + o.3
        }),
{
}

} // verus!
