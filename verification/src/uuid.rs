//! Version 4 UUID generation: sixteen random bytes, two bits and a nibble
//! pinned as the version and variant, formatted as five groups of lowercase
//! hexadecimal digits separated by hyphens.

use vstd::prelude::*;
use vstd::string::StringExecFns;

verus! {

/// The version adjustment: the high nibble of the seventh byte becomes 4.
pub open spec fn version_adjusted(b: u8) -> u8 {
    (b & 0x0f) | 0x40
}

/// The variant adjustment: the two high bits of the ninth byte become 1 0.
pub open spec fn variant_adjusted(b: u8) -> u8 {
    (b & 0x3f) | 0x80
}

/// The lowercase hexadecimal digit with value `v`.
pub open spec fn hex_char_of(v: u8) -> char
    recommends
        v < 16,
{
    if v == 0 {
        '0'
    } else if v == 1 {
        '1'
    } else if v == 2 {
        '2'
    } else if v == 3 {
        '3'
    } else if v == 4 {
        '4'
    } else if v == 5 {
        '5'
    } else if v == 6 {
        '6'
    } else if v == 7 {
        '7'
    } else if v == 8 {
        '8'
    } else if v == 9 {
        '9'
    } else if v == 10 {
        'a'
    } else if v == 11 {
        'b'
    } else if v == 12 {
        'c'
    } else if v == 13 {
        'd'
    } else if v == 14 {
        'e'
    } else {
        'f'
    }
}

/// The two hexadecimal digits of one byte, high nibble first.
pub open spec fn hex_pair(b: u8) -> Seq<char> {
    seq![hex_char_of(b / 16), hex_char_of(b % 16)]
}

/// A hyphen.
pub open spec fn dash() -> Seq<char> {
    seq!['-']
}

/// The 36 characters of the version 4 UUID made from 16 bytes: the bytes in
/// order as hexadecimal digit pairs, with the version and variant
/// adjustments applied to the seventh and ninth byte, in groups of 8, 4, 4,
/// 4 and 12 digits separated by hyphens.
pub open spec fn uuid_chars(b: Seq<u8>) -> Seq<char>
    recommends
        b.len() == 16,
{
    hex_pair(b[0]) + hex_pair(b[1]) + hex_pair(b[2]) + hex_pair(b[3]) + dash() + hex_pair(b[4])
        + hex_pair(b[5]) + dash() + hex_pair(version_adjusted(b[6])) + hex_pair(b[7]) + dash()
        + hex_pair(variant_adjusted(b[8])) + hex_pair(b[9]) + dash() + hex_pair(b[10]) + hex_pair(
        b[11],
    ) + hex_pair(b[12]) + hex_pair(b[13]) + hex_pair(b[14]) + hex_pair(b[15])
}

/// Append the lowercase hexadecimal digit with value `v`.
fn push_hex_char(s: &mut String, v: u8)
    requires
        v < 16,
    ensures
        final(s)@ == old(s)@ + seq![hex_char_of(v)],
{
    if v == 0 {
        proof {
            reveal_strlit("0");
        }
        s.append("0");
    } else if v == 1 {
        proof {
            reveal_strlit("1");
        }
        s.append("1");
    } else if v == 2 {
        proof {
            reveal_strlit("2");
        }
        s.append("2");
    } else if v == 3 {
        proof {
            reveal_strlit("3");
        }
        s.append("3");
    } else if v == 4 {
        proof {
            reveal_strlit("4");
        }
        s.append("4");
    } else if v == 5 {
        proof {
            reveal_strlit("5");
        }
        s.append("5");
    } else if v == 6 {
        proof {
            reveal_strlit("6");
        }
        s.append("6");
    } else if v == 7 {
        proof {
            reveal_strlit("7");
        }
        s.append("7");
    } else if v == 8 {
        proof {
            reveal_strlit("8");
        }
        s.append("8");
    } else if v == 9 {
        proof {
            reveal_strlit("9");
        }
        s.append("9");
    } else if v == 10 {
        proof {
            reveal_strlit("a");
        }
        s.append("a");
    } else if v == 11 {
        proof {
            reveal_strlit("b");
        }
        s.append("b");
    } else if v == 12 {
        proof {
            reveal_strlit("c");
        }
        s.append("c");
    } else if v == 13 {
        proof {
            reveal_strlit("d");
        }
        s.append("d");
    } else if v == 14 {
        proof {
            reveal_strlit("e");
        }
        s.append("e");
    } else {
        proof {
            reveal_strlit("f");
        }
        s.append("f");
    }
    proof {
        assert(s@ =~= old(s)@ + seq![hex_char_of(v)]);
    }
}

/// Append the two hexadecimal digits of one byte, high nibble first.
fn push_hex_byte(s: &mut String, b: u8)
    ensures
        final(s)@ == old(s)@ + hex_pair(b),
{
    push_hex_char(s, b / 16);
    push_hex_char(s, b % 16);
    proof {
        assert(s@ =~= old(s)@ + hex_pair(b));
    }
}

/// Append a hyphen.
fn push_dash(s: &mut String)
    ensures
        final(s)@ == old(s)@ + dash(),
{
    proof {
        reveal_strlit("-");
    }
    s.append("-");
    proof {
        assert(s@ =~= old(s)@ + dash());
    }
}

/// Format 16 bytes as a version 4 UUID string: hexadecimal digit pairs in
/// byte order, hyphens between the groups of 8, 4, 4, 4 and 12 digits, and
/// the version and variant adjustments applied to the seventh and ninth
/// byte.
pub fn format_uuid_v4(bytes: &Vec<u8>) -> (r: String)
    requires
        bytes@.len() == 16,
    ensures
        r@ == uuid_chars(bytes@),
{
    let mut s = String::new();
    push_hex_byte(&mut s, bytes[0]);
    push_hex_byte(&mut s, bytes[1]);
    push_hex_byte(&mut s, bytes[2]);
    push_hex_byte(&mut s, bytes[3]);
    push_dash(&mut s);
    push_hex_byte(&mut s, bytes[4]);
    push_hex_byte(&mut s, bytes[5]);
    push_dash(&mut s);
    push_hex_byte(&mut s, (bytes[6] & 0x0f) | 0x40);
    push_hex_byte(&mut s, bytes[7]);
    push_dash(&mut s);
    push_hex_byte(&mut s, (bytes[8] & 0x3f) | 0x80);
    push_hex_byte(&mut s, bytes[9]);
    push_dash(&mut s);
    push_hex_byte(&mut s, bytes[10]);
    push_hex_byte(&mut s, bytes[11]);
    push_hex_byte(&mut s, bytes[12]);
    push_hex_byte(&mut s, bytes[13]);
    push_hex_byte(&mut s, bytes[14]);
    push_hex_byte(&mut s, bytes[15]);
    proof {
        assert(s@ =~= uuid_chars(bytes@));
    }
    s
}

/// The shape every version 4 UUID string has, whatever the 16 bytes were:
/// 36 characters, hyphens exactly between the digit groups, the version
/// digit 4, and a variant digit of 8, 9, a or b.
pub proof fn lemma_uuid_shape(b: Seq<u8>)
    requires
        b.len() == 16,
    ensures
        uuid_chars(b).len() == 36,
        uuid_chars(b)[8] == '-',
        uuid_chars(b)[13] == '-',
        uuid_chars(b)[18] == '-',
        uuid_chars(b)[23] == '-',
        uuid_chars(b)[14] == '4',
        uuid_chars(b)[19] == '8' || uuid_chars(b)[19] == '9' || uuid_chars(b)[19] == 'a'
            || uuid_chars(b)[19] == 'b',
{
    let x = b[6];
    assert(((x & 0x0f) | 0x40) / 16 == 4) by (bit_vector);
    assert(version_adjusted(x) / 16 == 4);
    let y = b[8];
    assert(8 <= ((y & 0x3f) | 0x80) / 16 && ((y & 0x3f) | 0x80) / 16 <= 11) by (bit_vector);
    let v = variant_adjusted(y) / 16;
    assert(hex_char_of(v) == '8' || hex_char_of(v) == '9' || hex_char_of(v) == 'a' || hex_char_of(
        v,
    ) == 'b');
}

/// Relies on rand::random: a value drawn from the thread-local generator;
/// nothing is promised of it.
pub assume_specification<T>[ rand::random::<T> ]() -> (r: T)
    where
        rand::distributions::Standard: rand::distributions::Distribution<T>,
;

/// Generate a version 4 UUID string: the formatting of 16 random bytes,
/// with the version and variant fields pinned by the formatter whatever
/// bytes were drawn.
pub fn generate_v4_uuid() -> (r: String)
    ensures
        exists|b: Seq<u8>| b.len() == 16 && r@ == uuid_chars(b),
        r@.len() == 36,
        r@[8] == '-' && r@[13] == '-' && r@[18] == '-' && r@[23] == '-',
        r@[14] == '4',
        r@[19] == '8' || r@[19] == '9' || r@[19] == 'a' || r@[19] == 'b',
{
    let mut bytes: Vec<u8> = Vec::new();
    let mut i: usize = 0;
    while i < 16
        invariant
            bytes@.len() == i,
            i <= 16,
        decreases 16 - i,
    {
        bytes.push(rand::random::<u8>());
        i = i + 1;
    }
    let r = format_uuid_v4(&bytes);
    proof {
        assert(bytes@.len() == 16 && r@ == uuid_chars(bytes@));
        lemma_uuid_shape(bytes@);
    }
    r
}

} // verus!
