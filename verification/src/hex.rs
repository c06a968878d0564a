//! Bytes written out as lower-case hexadecimal text.

use vstd::prelude::*;

verus! {

/// `String::push` appends the character to the string.
pub assume_specification[ String::push ](s: &mut String, ch: char)
    ensures
        final(s)@ == old(s)@.push(ch),
;

/// The lower-case hexadecimal digit for a value below 16.
pub open spec fn hex_digit(n: u8) -> char {
    if n < 10 {
        (0x30 + n) as char
    } else {
        (0x61 + n - 10) as char
    }
}

/// The two hexadecimal digits of a byte, high digit first.
pub open spec fn hex_pair(byte: u8) -> Seq<char> {
    seq![hex_digit(byte / 0x10), hex_digit(byte % 0x10)]
}

/// Every byte as its two hexadecimal digits and a space.
pub open spec fn hex_dump(bytes: Seq<u8>) -> Seq<char>
    decreases bytes.len(),
{
    if bytes.len() == 0 {
        Seq::empty()
    } else {
        hex_dump(bytes.drop_last()) + hex_pair(bytes.last()) + seq![' ']
    }
}

/// The lower-case hexadecimal digit for a value below 16.
fn digit(n: u8) -> (c: char)
    requires
        n < 16,
    ensures
        c == hex_digit(n),
{
    match n {
        0 => '0',
        1 => '1',
        2 => '2',
        3 => '3',
        4 => '4',
        5 => '5',
        6 => '6',
        7 => '7',
        8 => '8',
        9 => '9',
        10 => 'a',
        11 => 'b',
        12 => 'c',
        13 => 'd',
        14 => 'e',
        _ => 'f',
    }
}

/// Append the two hexadecimal digits of `byte` to `text`.
pub fn push_hex(text: &mut String, byte: u8)
    ensures
        final(text)@ == old(text)@ + hex_pair(byte),
{
    text.push(digit(byte / 0x10));
    text.push(digit(byte % 0x10));
    assert(text@ =~= old(text)@ + hex_pair(byte));
}

/// The bytes of `packet` as text: two hexadecimal digits and a space for
/// each.
pub fn pretty_print(packet: &[u8]) -> (output: String)
    ensures
        output@ == hex_dump(packet@),
{
    let mut output = String::new();
    let mut i: usize = 0;
    while i < packet.len()
        invariant
            i <= packet.len(),
            output@ == hex_dump(packet@.take(i as int)),
        decreases packet.len() - i,
    {
        push_hex(&mut output, packet[i]);
        output.push(' ');
        i += 1;
        proof {
            let done = packet@.take(i as int);
            assert(done.drop_last() =~= packet@.take(i - 1));
            assert(output@ =~= hex_dump(done.drop_last()) + hex_pair(done.last()) + seq![' ']);
        }
    }
    assert(packet@.take(i as int) =~= packet@);
    output
}

} // verus!
