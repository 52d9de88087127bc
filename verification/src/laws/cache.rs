//! The cache: names become file names that say what they were.

use crate::cache::{encoded, encoded_byte, encoded_bytes, hex_upper};
use vstd::prelude::*;
use vstd::utf8::encode_utf8;

verus! {

/// A character stands for a number below 16: the digits 0 to 9 and the letters A
/// to F.
pub open spec fn hex_stands_for(c: char, n: int) -> bool {
    0 <= n < 16 && "0123456789ABCDEF"@[n] == c
}

/// A byte that is a letter, a digit, a hyphen or an underscore.
pub open spec fn plain_byte(b: u8) -> bool {
    ||| 'A' as u8 <= b <= 'Z' as u8
    ||| 'a' as u8 <= b <= 'z' as u8
    ||| '0' as u8 <= b <= '9' as u8
    ||| b == '-' as u8
    ||| b == '_' as u8
}

/// Bytes are encoded one by one: letters, digits, hyphens and underscores stand
/// for themselves, and any other byte is a percent sign and the two hexadecimal
/// digits of its number.
pub proof fn bytes_are_encoded_one_by_one(a: Seq<u8>, b: u8)
    ensures
        encoded_bytes(Seq::empty()) == Seq::<char>::empty(),
        encoded_bytes(seq![b] + a) == encoded_byte(b) + encoded_bytes(a),
        plain_byte(b) ==> encoded_byte(b) == seq![b as char],
        !plain_byte(b) ==> {
            let e = encoded_byte(b);
            &&& e.len() == 3
            &&& e[0] == '%'
            &&& hex_stands_for(e[1], (b / 16) as int)
            &&& hex_stands_for(e[2], (b % 16) as int)
        },
{
    assert((seq![b] + a).drop_first() =~= a);
    reveal_strlit("0123456789ABCDEF");
    let (high, low) = ((b / 16) as u8, (b % 16) as u8);
    assert(high < 16 && low < 16);
    hex_digits_stand_for_numbers(high);
    hex_digits_stand_for_numbers(low);
}

proof fn hex_digits_stand_for_numbers(n: u8)
    requires
        n < 16,
    ensures
        hex_stands_for(hex_upper(n), n as int),
{
    reveal_strlit("0123456789ABCDEF");
    let all = "0123456789ABCDEF"@;
    assert(all[0] == '0' && all[1] == '1' && all[2] == '2' && all[3] == '3' && all[4] == '4'
        && all[5] == '5' && all[6] == '6' && all[7] == '7' && all[8] == '8' && all[9] == '9');
    assert(all[10] == 'A' && all[11] == 'B' && all[12] == 'C' && all[13] == 'D' && all[14] == 'E'
        && all[15] == 'F');
}

/// A name is encoded as its UTF-8 bytes are.
pub proof fn names_are_encoded_as_utf8(s: Seq<char>)
    ensures
        encoded(s) == encoded_bytes(encode_utf8(s)),
{
}

}
