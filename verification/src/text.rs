//! Addresses and blocks as text: decimal numbers, dotted quads, and a
//! dotted quad with a prefix length after a slash.

use vstd::prelude::*;
use vstd::string::StringSliceAdditionalSpecFns;

use crate::cidr::{cidr_check, Ipv4Cidr};
use crate::ipv4::{octets_to_bits, Ipv4Addr};

verus! {

/// The decimal digit for a value below ten.
pub open spec fn digit_char(d: nat) -> char {
    (0x30 + d) as char
}

/// The number `n` in decimal, without leading zeros.
pub open spec fn decimal(n: nat) -> Seq<char>
    decreases n,
{
    if n < 10 {
        seq![digit_char(n)]
    } else {
        decimal(n / 10).push(digit_char(n % 10))
    }
}

/// The address as text: its four octets in decimal, with dots in between.
pub open spec fn address_text(ip: Ipv4Addr) -> Seq<char> {
    decimal(ip.octets_spec()[0] as nat) + seq!['.'] + decimal(ip.octets_spec()[1] as nat) + seq![
        '.',
    ] + decimal(ip.octets_spec()[2] as nat) + seq!['.'] + decimal(ip.octets_spec()[3] as nat)
}

/// The block as text: its first address, a slash, and the length of its
/// prefix.
pub open spec fn cidr_text(cidr: Ipv4Cidr) -> Seq<char> {
    address_text(Ipv4Addr { bits: cidr.first() as u32 }) + seq!['/'] + decimal(cidr.prefix() as nat)
}

/// Whether `b` is an ASCII decimal digit.
pub open spec fn is_digit(b: u8) -> bool {
    0x30 <= b <= 0x39
}

/// Whether `s` holds ASCII decimal digits only.
pub open spec fn all_digits(s: Seq<u8>) -> bool {
    forall|i: int| 0 <= i < s.len() ==> is_digit(#[trigger] s[i])
}

/// The number that the digits `s` spell.
pub open spec fn digits_value(s: Seq<u8>) -> nat
    decreases s.len(),
{
    if s.len() == 0 {
        0
    } else {
        digits_value(s.drop_last()) * 10 + (s.last() - 0x30) as nat
    }
}

/// The octet that `s` spells: one to three digits, without a leading
/// zero before another digit, with a value of at most 255.
pub open spec fn octet_of(s: Seq<u8>) -> Option<u8> {
    if 1 <= s.len() <= 3 && all_digits(s) && (s.len() == 1 || s[0] != 0x30) && digits_value(s)
        <= 255 {
        Some(digits_value(s) as u8)
    } else {
        None
    }
}

/// The prefix length that `s` spells: digits, after a plus sign or
/// without one, with a value of at most 255.
pub open spec fn prefix_of(s: Seq<u8>) -> Option<u8> {
    let digits = if s.len() > 0 && s[0] == 0x2b {
        s.skip(1)
    } else {
        s
    };
    if digits.len() >= 1 && all_digits(digits) && digits_value(digits) <= 255 {
        Some(digits_value(digits) as u8)
    } else {
        None
    }
}

/// The position of the first `separator` in `s`; the length of `s` where
/// it holds none.
pub open spec fn field_end(s: Seq<u8>, separator: u8) -> int
    decreases s.len(),
{
    if s.len() == 0 || s[0] == separator {
        0
    } else {
        1 + field_end(s.skip(1), separator)
    }
}

/// The pieces into which the occurrences of `separator` cut `s`.
pub open spec fn fields(s: Seq<u8>, separator: u8) -> Seq<Seq<u8>>
    decreases s.len(),
    via fields_decreases
{
    let end = field_end(s, separator);
    if end >= s.len() {
        seq![s]
    } else {
        seq![s.take(end)] + fields(s.skip(end + 1), separator)
    }
}

#[via_fn]
proof fn fields_decreases(s: Seq<u8>, separator: u8) {
    lemma_field_end(s, separator);
}

/// The address that `s` spells: four octets with dots in between.
pub open spec fn address_of(s: Seq<u8>) -> Option<Ipv4Addr> {
    let parts = fields(s, 0x2e);
    if parts.len() == 4 && octet_of(parts[0]) is Some && octet_of(parts[1]) is Some && octet_of(
        parts[2],
    ) is Some && octet_of(parts[3]) is Some {
        Some(
            Ipv4Addr {
                bits: octets_to_bits(
                    octet_of(parts[0]).unwrap(),
                    octet_of(parts[1]).unwrap(),
                    octet_of(parts[2]).unwrap(),
                    octet_of(parts[3]).unwrap(),
                ) as u32,
            },
        )
    } else {
        None
    }
}

/// The first address and the prefix length that `s` spells: an address,
/// a slash, and a prefix length that names a block with the address.
/// Whatever follows a second slash is not looked at.
pub open spec fn block_of(s: Seq<u8>) -> Option<(Ipv4Addr, u8)> {
    let parts = fields(s, 0x2f);
    if parts.len() >= 2 && address_of(parts[0]) is Some && prefix_of(parts[1]) is Some
        && cidr_check(address_of(parts[0]).unwrap(), prefix_of(parts[1]).unwrap()) is Ok {
        Some((address_of(parts[0]).unwrap(), prefix_of(parts[1]).unwrap()))
    } else {
        None
    }
}

/// The first separator stands at `field_end`, and none before it.
pub proof fn lemma_field_end(s: Seq<u8>, separator: u8)
    ensures
        0 <= field_end(s, separator) <= s.len(),
        forall|i: int| 0 <= i < field_end(s, separator) ==> s[i] != separator,
        field_end(s, separator) < s.len() ==> s[field_end(s, separator)] == separator,
    decreases s.len(),
{
    if s.len() > 0 && s[0] != separator {
        let rest = s.skip(1);
        lemma_field_end(rest, separator);
        assert forall|i: int| 0 <= i < field_end(s, separator) implies s[i] != separator by {
            if i > 0 {
                assert(rest[i - 1] == s[i]);
            }
        }
    }
}

/// A position with a separator, or the end, and no separator before it,
/// is `field_end`.
pub proof fn lemma_field_end_is(s: Seq<u8>, separator: u8, end: int)
    requires
        0 <= end <= s.len(),
        forall|i: int| 0 <= i < end ==> s[i] != separator,
        end < s.len() ==> s[end] == separator,
    ensures
        field_end(s, separator) == end,
{
    lemma_field_end(s, separator);
    let found = field_end(s, separator);
    if found < end {
        assert(s[found] != separator);
    }
}

/// What `fields` is, one piece at a time: all of `s` where it holds no
/// separator, and else what stands before the first separator, followed
/// by the pieces of what stands after it.
pub proof fn lemma_fields(s: Seq<u8>, separator: u8)
    ensures
        fields(s, separator).len() >= 1,
        field_end(s, separator) >= s.len() ==> fields(s, separator) == seq![s],
        field_end(s, separator) < s.len() ==> fields(s, separator) == seq![
            s.take(field_end(s, separator)),
        ] + fields(s.skip(field_end(s, separator) + 1), separator) && fields(s, separator).len()
            == 1 + fields(s.skip(field_end(s, separator) + 1), separator).len(),
    decreases s.len(),
{
    lemma_field_end(s, separator);
    if field_end(s, separator) < s.len() {
        lemma_fields(s.skip(field_end(s, separator) + 1), separator);
    }
}

/// The number that digits spell grows with every further digit.
pub proof fn lemma_digits_value_grows(s: Seq<u8>, n: int)
    requires
        0 <= n <= s.len(),
        all_digits(s),
    ensures
        digits_value(s.take(n)) <= digits_value(s),
    decreases s.len() - n,
{
    if n < s.len() {
        lemma_digits_value_grows(s, n + 1);
        assert(s.take(n + 1).drop_last() =~= s.take(n));
    } else {
        assert(s.take(n) =~= s);
    }
}

/// The decimal digit for a value below ten.
fn decimal_digit(n: u8) -> (c: char)
    requires
        n < 10,
    ensures
        c == digit_char(n as nat),
{
    match n {
        0 => '0',
        1 => '1',
        2 => '2',
        3 => '3',
        4 => '4',
        5 => '5',
        6 => '6',
        7 => '7',
        8 => '8',
        _ => '9',
    }
}

/// Append `n` in decimal, without leading zeros.
pub fn push_decimal(text: &mut String, n: u8)
    ensures
        final(text)@ == old(text)@ + decimal(n as nat),
{
    proof {
        reveal_with_fuel(decimal, 4);
    }
    if n >= 100 {
        text.push(decimal_digit(n / 100));
    }
    if n >= 10 {
        text.push(decimal_digit(n / 10 % 10));
    }
    text.push(decimal_digit(n % 10));
    assert(text@ =~= old(text)@ + decimal(n as nat));
}

/// The number that the digits of `bytes` from `from` up to `to` spell,
/// where it is at most 255; nothing where a byte is no digit, where there
/// is none, and where the number is larger.
fn parse_number(bytes: &[u8], from: usize, to: usize) -> (value: Option<u8>)
    requires
        from <= to <= bytes.len(),
    ensures
        value == if from < to && all_digits(bytes@.subrange(from as int, to as int))
            && digits_value(bytes@.subrange(from as int, to as int)) <= 255 {
            Some(digits_value(bytes@.subrange(from as int, to as int)) as u8)
        } else {
            None
        },
{
    if from == to {
        return None;
    }
    let ghost digits = bytes@.subrange(from as int, to as int);
    let mut value: u16 = 0;
    let mut i: usize = from;
    while i < to
        invariant
            from <= i <= to <= bytes.len(),
            digits == bytes@.subrange(from as int, to as int),
            all_digits(digits.take(i - from)),
            value == digits_value(digits.take(i - from)),
            value <= 255,
        decreases to - i,
    {
        let b = bytes[i];
        assert(digits[i - from] == b);
        if b < 0x30 || b > 0x39 {
            return None;
        }
        let ghost before = digits.take(i - from);
        let ghost now = digits.take(i - from + 1);
        assert(now.drop_last() =~= before);
        assert(now.last() == b);
        assert(all_digits(now)) by {
            assert forall|k: int| 0 <= k < now.len() implies is_digit(#[trigger] now[k]) by {
                if k < before.len() {
                    assert(before[k] == now[k]);
                }
            }
        }
        value = value * 10 + (b - 0x30) as u16;
        if value > 255 {
            proof {
                if all_digits(digits) {
                    lemma_digits_value_grows(digits, i - from + 1);
                }
            }
            return None;
        }
        i += 1;
    }
    assert(digits.take(i - from) =~= digits);
    Some(value as u8)
}

/// The octet that the bytes of `bytes` from `from` up to `to` spell.
fn parse_octet(bytes: &[u8], from: usize, to: usize) -> (value: Option<u8>)
    requires
        from <= to <= bytes.len(),
    ensures
        value == octet_of(bytes@.subrange(from as int, to as int)),
{
    if to - from > 3 {
        return None;
    }
    if to - from > 1 && bytes[from] == 0x30 {
        return None;
    }
    parse_number(bytes, from, to)
}

/// The prefix length that the bytes of `bytes` from `from` up to `to`
/// spell.
fn parse_prefix(bytes: &[u8], from: usize, to: usize) -> (value: Option<u8>)
    requires
        from <= to <= bytes.len(),
    ensures
        value == prefix_of(bytes@.subrange(from as int, to as int)),
{
    let ghost s = bytes@.subrange(from as int, to as int);
    if from < to && bytes[from] == 0x2b {
        assert(s.skip(1) =~= bytes@.subrange(from + 1, to as int));
        parse_number(bytes, from + 1, to)
    } else {
        parse_number(bytes, from, to)
    }
}

/// The position of the first `separator` in `bytes` from `from` up to
/// `to`; `to` where there is none.
fn find_field_end(bytes: &[u8], from: usize, to: usize, separator: u8) -> (end: usize)
    requires
        from <= to <= bytes.len(),
    ensures
        from <= end <= to,
        end - from == field_end(bytes@.subrange(from as int, to as int), separator),
{
    let mut end: usize = from;
    while end < to && bytes[end] != separator
        invariant
            from <= end <= to <= bytes.len(),
            forall|i: int| from <= i < end ==> bytes@[i] != separator,
        decreases to - end,
    {
        end += 1;
    }
    proof {
        lemma_field_end_is(bytes@.subrange(from as int, to as int), separator, end - from);
    }
    end
}

/// The address that the bytes of `bytes` from `from` up to `to` spell.
fn parse_address_in(bytes: &[u8], from: usize, to: usize) -> (ip: Option<Ipv4Addr>)
    requires
        from <= to <= bytes.len(),
    ensures
        ip == address_of(bytes@.subrange(from as int, to as int)),
{
    let ghost s = bytes@.subrange(from as int, to as int);
    let dot: u8 = 0x2e;

    let end0 = find_field_end(bytes, from, to, dot);
    proof {
        lemma_fields(s, dot);
    }
    if end0 == to {
        return None;
    }
    let ghost s1 = s.skip(end0 - from + 1);
    assert(s1 =~= bytes@.subrange(end0 + 1, to as int));
    assert(s.take(end0 - from) =~= bytes@.subrange(from as int, end0 as int));

    let end1 = find_field_end(bytes, end0 + 1, to, dot);
    proof {
        lemma_fields(s1, dot);
    }
    if end1 == to {
        return None;
    }
    let ghost s2 = s1.skip(end1 - end0);
    assert(s2 =~= bytes@.subrange(end1 + 1, to as int));
    assert(s1.take(end1 - end0 - 1) =~= bytes@.subrange(end0 + 1, end1 as int));

    let end2 = find_field_end(bytes, end1 + 1, to, dot);
    proof {
        lemma_fields(s2, dot);
    }
    if end2 == to {
        return None;
    }
    let ghost s3 = s2.skip(end2 - end1);
    assert(s3 =~= bytes@.subrange(end2 + 1, to as int));
    assert(s2.take(end2 - end1 - 1) =~= bytes@.subrange(end1 + 1, end2 as int));

    let end3 = find_field_end(bytes, end2 + 1, to, dot);
    proof {
        lemma_fields(s3, dot);
        if end3 != to {
            lemma_fields(s3.skip(end3 - end2), dot);
        }
    }
    if end3 != to {
        return None;
    }
    assert(s3 =~= bytes@.subrange(end2 + 1, end3 as int));
    assert(fields(s, dot) =~= seq![
        bytes@.subrange(from as int, end0 as int),
        bytes@.subrange(end0 + 1, end1 as int),
        bytes@.subrange(end1 + 1, end2 as int),
        bytes@.subrange(end2 + 1, end3 as int),
    ]);

    let a = match parse_octet(bytes, from, end0) {
        Some(a) => a,
        None => return None,
    };
    let b = match parse_octet(bytes, end0 + 1, end1) {
        Some(b) => b,
        None => return None,
    };
    let c = match parse_octet(bytes, end1 + 1, end2) {
        Some(c) => c,
        None => return None,
    };
    let d = match parse_octet(bytes, end2 + 1, end3) {
        Some(d) => d,
        None => return None,
    };
    Some(Ipv4Addr::new(a, b, c, d))
}

/// Append the address as text.
pub fn push_address(text: &mut String, ip: Ipv4Addr)
    ensures
        final(text)@ == old(text)@ + address_text(ip),
{
    let octets = ip.octets();
    push_decimal(text, octets[0]);
    text.push('.');
    push_decimal(text, octets[1]);
    text.push('.');
    push_decimal(text, octets[2]);
    text.push('.');
    push_decimal(text, octets[3]);
    assert(text@ =~= old(text)@ + address_text(ip));
}

/// The address that `text` spells: four octets in decimal with dots in
/// between, each of one to three digits, without leading zeros, and at
/// most 255.
pub fn parse_address(text: &str) -> (ip: Option<Ipv4Addr>)
    ensures
        ip == address_of(text.spec_bytes()),
{
    let bytes = text.as_bytes();
    assert(bytes@.subrange(0, bytes@.len() as int) =~= bytes@);
    parse_address_in(bytes, 0, bytes.len())
}

/// The block that `text` spells: an address, a slash and a prefix
/// length, where the address is the first of the block.
pub fn parse_cidr(text: &str) -> (cidr: Option<Ipv4Cidr>)
    ensures
        match cidr {
            Some(cidr) => block_of(text.spec_bytes()) == Some(
                (Ipv4Addr { bits: cidr.first() as u32 }, cidr.prefix()),
            ),
            None => block_of(text.spec_bytes()) is None,
        },
{
    let bytes = text.as_bytes();
    let n = bytes.len();
    let slash: u8 = 0x2f;
    let ghost s = bytes@;
    assert(s.subrange(0, n as int) =~= s);

    let end0 = find_field_end(bytes, 0, n, slash);
    proof {
        lemma_fields(s, slash);
    }
    if end0 == n {
        return None;
    }
    let ghost s1 = s.skip(end0 + 1);
    assert(s1 =~= s.subrange(end0 + 1, n as int));
    assert(s.take(end0 as int) =~= s.subrange(0, end0 as int));
    let end1 = find_field_end(bytes, end0 + 1, n, slash);
    proof {
        lemma_fields(s1, slash);
        assert(s1.take(end1 - end0 - 1) =~= s.subrange(end0 + 1, end1 as int));
        if end1 == n {
            assert(s1.take(end1 - end0 - 1) =~= s1);
        }
        assert(fields(s, slash)[0] == s.subrange(0, end0 as int));
        assert(fields(s, slash)[1] == fields(s1, slash)[0]);
        assert(fields(s, slash)[1] == s.subrange(end0 + 1, end1 as int));
    }

    let address = match parse_address_in(bytes, 0, end0) {
        Some(address) => address,
        None => return None,
    };
    let length = match parse_prefix(bytes, end0 + 1, end1) {
        Some(length) => length,
        None => return None,
    };
    match Ipv4Cidr::new(address, length) {
        Ok(cidr) => Some(cidr),
        Err(_) => None,
    }
}

impl Ipv4Addr {
    /// The address as text, such as `192.168.0.1`.
    pub fn to_string(&self) -> (text: String)
        ensures
            text@ == address_text(*self),
    {
        let mut text = String::new();
        push_address(&mut text, *self);
        text
    }
}

impl Ipv4Cidr {
    /// The block as text, such as `192.168.0.0/24`.
    pub fn to_string(&self) -> (text: String)
        ensures
            text@ == cidr_text(*self),
    {
        let mut text = String::new();
        push_address(&mut text, self.first_address());
        text.push('/');
        push_decimal(&mut text, self.network_length());
        assert(text@ =~= cidr_text(*self));
        text
    }
}

} // verus!
