//! Texts as HTML forms write them.
use vstd::prelude::*;
use vstd::utf8::{decode_utf8, encode_utf8, valid_utf8};

verus! {

/// The value of a digit of base sixteen, in small or capital letters.
pub open spec fn hex_value(byte: u8) -> Option<u8> {
    if 48 <= byte <= 57 {
        Some((byte - 48) as u8)
    } else if 97 <= byte <= 102 {
        Some((byte - 87) as u8)
    } else if 65 <= byte <= 70 {
        Some((byte - 55) as u8)
    } else {
        None
    }
}

/// The byte that two characters write in base sixteen: two digits, or a plus sign and a digit.
pub open spec fn hex_pair(high: u8, low: u8) -> Option<u8> {
    match (hex_value(high), hex_value(low)) {
        (Some(high), Some(low)) => Some((high * 16 + low) as u8),
        (None, Some(low)) => if high == 43 {
            Some(low)
        } else {
            None
        },
        _ => None,
    }
}

/// The bytes that a form writes: a plus sign for a space, a percent sign and two characters for a
/// byte, and any other byte for itself. Where the two characters write no byte the percent sign
/// is left in their place.
pub open spec fn form_bytes(bytes: Seq<u8>) -> Seq<u8>
    decreases bytes.len(),
{
    if bytes.len() == 0 {
        Seq::empty()
    } else if bytes[0] == 43 {
        seq![32u8] + form_bytes(bytes.skip(1))
    } else if bytes[0] == 37 && bytes.len() > 2 {
        seq![
            match hex_pair(bytes[1], bytes[2]) {
                Some(byte) => byte,
                None => 37u8,
            },
        ] + form_bytes(bytes.skip(3))
    } else {
        seq![bytes[0]] + form_bytes(bytes.skip(1))
    }
}

/// The text that `String::from_utf8_lossy` reads in bytes.
pub uninterp spec fn lossy_text(bytes: Seq<u8>) -> Seq<char>;

/// Calls `String::from_utf8_lossy`. The text depends on the bytes alone; of bytes that are UTF-8 it
/// is the text that they write.
#[verifier::external_body]
fn text_from_bytes(bytes: &Vec<u8>) -> (r: String)
    ensures
        r@ == lossy_text(bytes@),
        valid_utf8(bytes@) ==> r@ == decode_utf8(bytes@),
{
    String::from_utf8_lossy(bytes).into_owned()
}

/// The text that a form writes.
pub open spec fn form_text(value: Seq<char>) -> Seq<char> {
    lossy_text(form_bytes(encode_utf8(value)))
}

fn read_hex(byte: u8) -> (r: Option<u8>)
    ensures
        r == hex_value(byte),
        r matches Some(value) ==> value < 16,
{
    if 48 <= byte && byte <= 57 {
        Some(byte - 48)
    } else if 97 <= byte && byte <= 102 {
        Some(byte - 87)
    } else if 65 <= byte && byte <= 70 {
        Some(byte - 55)
    } else {
        None
    }
}

fn read_pair(high: u8, low: u8) -> (r: Option<u8>)
    ensures
        r == hex_pair(high, low),
{
    match (read_hex(high), read_hex(low)) {
        (Some(high), Some(low)) => Some(high * 16 + low),
        (None, Some(low)) => if high == 43 {
            Some(low)
        } else {
            None
        },
        _ => None,
    }
}

/// The bytes that a form writes.
pub fn decode_bytes(bytes: &[u8]) -> (r: Vec<u8>)
    ensures
        r@ == form_bytes(bytes@),
{
    let mut out: Vec<u8> = Vec::new();
    let mut index: usize = 0;
    proof {
        assert(bytes@.skip(0) =~= bytes@);
        assert(out@ + form_bytes(bytes@) =~= form_bytes(bytes@));
    }
    while index < bytes.len()
        invariant
            index <= bytes@.len(),
            out@ + form_bytes(bytes@.skip(index as int)) == form_bytes(bytes@),
        decreases bytes@.len() - index,
    {
        let ghost rest = bytes@.skip(index as int);
        let ghost before = out@;
        proof {
            assert(rest[0] == bytes@[index as int]);
            assert(rest.skip(1) =~= bytes@.skip(index + 1));
        }
        let byte: u8 = bytes[index];
        if byte == 43 {
            out.push(32);
            index = index + 1;
            proof {
                assert(before + (seq![32u8] + form_bytes(rest.skip(1))) =~= out@ + form_bytes(
                    rest.skip(1),
                ));
            }
        } else if byte == 37 && bytes.len() - index > 2 {
            let decoded: u8 = match read_pair(bytes[index + 1], bytes[index + 2]) {
                Some(decoded) => decoded,
                None => byte,
            };
            proof {
                assert(rest[1] == bytes@[index + 1]);
                assert(rest[2] == bytes@[index + 2]);
                assert(rest.skip(3) =~= bytes@.skip(index + 3));
            }
            out.push(decoded);
            index = index + 3;
            proof {
                assert(before + (seq![decoded] + form_bytes(rest.skip(3))) =~= out@ + form_bytes(
                    rest.skip(3),
                ));
            }
        } else {
            out.push(byte);
            index = index + 1;
            proof {
                assert(before + (seq![byte] + form_bytes(rest.skip(1))) =~= out@ + form_bytes(
                    rest.skip(1),
                ));
            }
        }
    }
    proof {
        assert(bytes@.skip(index as int) =~= Seq::empty());
        assert(out@ + Seq::<u8>::empty() =~= out@);
    }
    out
}

/// The text that a form writes. One without plus and percent signs writes itself.
pub fn decode_form(value: &str) -> (r: String)
    ensures
        r@ == form_text(value@),
        plain(encode_utf8(value@)) ==> r@ == value@,
        valid_utf8(form_bytes(encode_utf8(value@))) ==> r@ == decode_utf8(
            form_bytes(encode_utf8(value@)),
        ),
{
    broadcast use vstd::utf8::encode_utf8_valid_utf8, vstd::utf8::encode_utf8_decode_utf8;

    let bytes = decode_bytes(value.as_bytes());
    proof {
        if plain(encode_utf8(value@)) {
            law_plain_bytes_stay(encode_utf8(value@));
        }
    }
    text_from_bytes(&bytes)
}

/// Whether no byte is a plus or a percent sign.
pub open spec fn plain(bytes: Seq<u8>) -> bool {
    forall|i: int| 0 <= i < bytes.len() ==> #[trigger] bytes[i] != 43 && bytes[i] != 37
}

/// Bytes without plus and percent signs write themselves.
pub proof fn law_plain_bytes_stay(bytes: Seq<u8>)
    requires
        plain(bytes),
    ensures
        form_bytes(bytes) == bytes,
    decreases bytes.len(),
{
    if bytes.len() > 0 {
        let rest = bytes.skip(1);
        assert forall|i: int| 0 <= i < rest.len() implies #[trigger] rest[i] != 43 && rest[i]
            != 37 by {
            assert(rest[i] == bytes[i + 1]);
        }
        law_plain_bytes_stay(rest);
        assert(bytes[0] != 43 && bytes[0] != 37);
        assert(seq![bytes[0]] + rest =~= bytes);
    } else {
        assert(form_bytes(bytes) =~= bytes);
    }
}

/// The digit of base sixteen for a value, in capital letters.
pub open spec fn hex_letter(value: int) -> u8 {
    if value < 10 {
        (48 + value) as u8
    } else {
        (55 + value) as u8
    }
}

/// A percent sign and two digits for every byte.
pub open spec fn percent_encoded(bytes: Seq<u8>) -> Seq<u8>
    decreases bytes.len(),
{
    if bytes.len() == 0 {
        Seq::empty()
    } else {
        seq![37u8, hex_letter(bytes[0] as int / 16), hex_letter(bytes[0] as int % 16)]
            + percent_encoded(bytes.skip(1))
    }
}

/// Bytes that are written with percent signs are read back, whatever they are.
pub proof fn law_percent_encoding_reads_back(bytes: Seq<u8>)
    ensures
        form_bytes(percent_encoded(bytes)) == bytes,
    decreases bytes.len(),
{
    let encoded = percent_encoded(bytes);
    if bytes.len() > 0 {
        law_percent_encoding_reads_back(bytes.skip(1));
        let (high, low) = (bytes[0] as int / 16, bytes[0] as int % 16);
        assert(encoded[0] == 37 && encoded[1] == hex_letter(high) && encoded[2] == hex_letter(low));
        assert(encoded.skip(3) =~= percent_encoded(bytes.skip(1)));
        assert(hex_value(hex_letter(high)) == Some(high as u8));
        assert(hex_value(hex_letter(low)) == Some(low as u8));
        assert(hex_pair(encoded[1], encoded[2]) == Some(bytes[0]));
        assert(seq![bytes[0]] + bytes.skip(1) =~= bytes);
    } else {
        assert(form_bytes(encoded) =~= bytes);
    }
}

/// What a form writes is never longer than how it writes it.
pub proof fn law_form_does_not_grow(bytes: Seq<u8>)
    ensures
        form_bytes(bytes).len() <= bytes.len(),
    decreases bytes.len(),
{
    if bytes.len() > 0 {
        law_form_does_not_grow(bytes.skip(1));
        if bytes.len() > 2 {
            law_form_does_not_grow(bytes.skip(3));
        }
    }
}

} // verus!
