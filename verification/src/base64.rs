//! Base64 with the standard alphabet and `=` padding, as file contents and shell data travel
//! between host and guest.
use crate::text;
use crate::text::decimal_of;
use vstd::prelude::*;
use vstd::string::*;

verus! {

/// The symbol that stands for the six-bit value `v`.
pub open spec fn symbol(v: u8) -> char {
    if v < 26 {
        (65 + v) as char
    } else if v < 52 {
        (71 + v) as char
    } else if v < 62 {
        (v - 4) as char
    } else if v == 62 {
        '+'
    } else {
        '/'
    }
}

/// The four symbols of a full group of three bytes.
pub open spec fn group(a: u8, b: u8, c: u8) -> Seq<char> {
    seq![
        symbol(a / 4),
        symbol(((a % 4) * 16 + b / 16) as u8),
        symbol(((b % 16) * 4 + c / 64) as u8),
        symbol(c % 64),
    ]
}

/// The base64 text of `data`: one group of four symbols for each three bytes, the last group
/// padded with `=`.
pub open spec fn encoded(data: Seq<u8>) -> Seq<char>
    decreases data.len(),
{
    if data.len() == 0 {
        seq![]
    } else if data.len() == 1 {
        seq![symbol(data[0] / 4), symbol(((data[0] % 4) * 16) as u8), '=', '=']
    } else if data.len() == 2 {
        seq![
            symbol(data[0] / 4),
            symbol(((data[0] % 4) * 16 + data[1] / 16) as u8),
            symbol(((data[1] % 16) * 4) as u8),
            '=',
        ]
    } else {
        group(data[0], data[1], data[2]) + encoded(data.skip(3))
    }
}

/// The six-bit value of a symbol; padding counts as zero. `None` for a byte that is no symbol.
pub open spec fn symbol_value(c: u8) -> Option<u8> {
    if 65 <= c <= 90 {
        Some((c - 65) as u8)
    } else if 97 <= c <= 122 {
        Some((c - 71) as u8)
    } else if 48 <= c <= 57 {
        Some((c + 4) as u8)
    } else if c == 43 {
        Some(62)
    } else if c == 47 {
        Some(63)
    } else if c == 61 {
        Some(0)
    } else {
        None
    }
}

/// The bytes that one group of four symbols holds. A `=` in the third or fourth place leaves
/// out the second or third byte.
pub open spec fn group_bytes(s: Seq<u8>) -> Seq<u8> {
    let a = symbol_value(s[0])->0;
    let b = symbol_value(s[1])->0;
    let c = symbol_value(s[2])->0;
    let d = symbol_value(s[3])->0;
    let first = seq![(a * 4 + b / 16) as u8];
    let second = if s[2] == 61 {
        seq![]
    } else {
        seq![((b % 16) * 16 + c / 4) as u8]
    };
    let third = if s[3] == 61 {
        seq![]
    } else {
        seq![((c % 4) * 64 + d) as u8]
    };
    first + second + third
}

/// The message for a byte that is no base64 symbol.
pub open spec fn bad_symbol_message(c: u8) -> Seq<char> {
    "invalid base64 character: "@ + text::decimal(c as nat)
}

/// The message for the first byte of a group that is no symbol, if there is one.
pub open spec fn group_fault(s: Seq<u8>) -> Option<Seq<char>> {
    if symbol_value(s[0]) is None {
        Some(bad_symbol_message(s[0]))
    } else if symbol_value(s[1]) is None {
        Some(bad_symbol_message(s[1]))
    } else if symbol_value(s[2]) is None {
        Some(bad_symbol_message(s[2]))
    } else if symbol_value(s[3]) is None {
        Some(bad_symbol_message(s[3]))
    } else {
        None
    }
}

/// What the bytes of a base64 text decode to, or the message of the first fault met from the
/// left.
pub open spec fn decoded(s: Seq<u8>) -> Result<Seq<u8>, Seq<char>>
    decreases s.len(),
{
    if s.len() == 0 {
        Ok(seq![])
    } else if s.len() < 4 {
        Err("invalid base64 length"@)
    } else if let Some(message) = group_fault(s) {
        Err(message)
    } else {
        match decoded(s.skip(4)) {
            Ok(rest) => Ok(group_bytes(s) + rest),
            Err(message) => Err(message),
        }
    }
}

/// What a base64 text decodes to.
pub open spec fn decoded_text(s: Seq<char>) -> Result<Seq<u8>, Seq<char>> {
    decoded(vstd::utf8::encode_utf8(s))
}

fn symbol_of(v: u8) -> (c: char)
    requires
        v < 64,
    ensures
        c == symbol(v),
{
    if v < 26 {
        (65 + v) as char
    } else if v < 52 {
        (71 + v) as char
    } else if v < 62 {
        (v - 4) as char
    } else if v == 62 {
        '+'
    } else {
        '/'
    }
}

/// Encodes `data` as base64 text.
pub fn base64_encode(data: &[u8]) -> (text: String)
    ensures
        text@ == encoded(data@),
{
    let mut output = String::new();
    let mut i: usize = 0;
    proof {
        assert(data@.skip(0) =~= data@);
    }
    while data.len() - i > 2
        invariant
            i <= data.len(),
            output@ + encoded(data@.skip(i as int)) == encoded(data@),
        decreases data.len() - i,
    {
        let a = data[i];
        let b = data[i + 1];
        let c = data[i + 2];
        let ghost before = output@;
        let ghost rest = data@.skip(i as int);
        output.push(symbol_of(a / 4));
        output.push(symbol_of((a % 4) * 16 + b / 16));
        output.push(symbol_of((b % 16) * 4 + c / 64));
        output.push(symbol_of(c % 64));
        i = i + 3;
        proof {
            assert(output@ =~= before + group(a, b, c));
            assert(rest.skip(3) =~= data@.skip(i as int));
            assert(before + (group(a, b, c) + encoded(rest.skip(3))) =~= output@ + encoded(
                data@.skip(i as int),
            ));
        }
    }
    let ghost before = output@;
    let ghost rest = data@.skip(i as int);
    let remaining: usize = data.len() - i;
    if remaining == 1 {
        let a = data[i];
        output.push(symbol_of(a / 4));
        output.push(symbol_of((a % 4) * 16));
        output.push('=');
        output.push('=');
    } else if remaining == 2 {
        let a = data[i];
        let b = data[i + 1];
        output.push(symbol_of(a / 4));
        output.push(symbol_of((a % 4) * 16 + b / 16));
        output.push(symbol_of((b % 16) * 4));
        output.push('=');
    }
    proof {
        assert(output@ =~= before + encoded(rest));
    }
    output
}

fn decode_symbol(c: u8) -> (r: Result<u8, String>)
    ensures
        match r {
            Ok(v) => symbol_value(c) == Some(v) && v < 64,
            Err(message) => symbol_value(c) is None && message@ == bad_symbol_message(c),
        },
{
    if 65 <= c && c <= 90 {
        Ok(c - 65)
    } else if 97 <= c && c <= 122 {
        Ok(c - 71)
    } else if 48 <= c && c <= 57 {
        Ok(c + 4)
    } else if c == 43 {
        Ok(62)
    } else if c == 47 {
        Ok(63)
    } else if c == 61 {
        Ok(0)
    } else {
        let mut message = "invalid base64 character: ".to_owned();
        let code = decimal_of(c as u64);
        message.append(code.as_str());
        Err(message)
    }
}

/// Decodes base64 text. Text whose length is no multiple of four, and text with a byte that is
/// no base64 symbol, is refused with a message that names the fault.
pub fn base64_decode(input: &str) -> (r: Result<Vec<u8>, String>)
    ensures
        match r {
            Ok(data) => decoded_text(input@) == Ok::<Seq<u8>, Seq<char>>(data@),
            Err(message) => decoded_text(input@) == Err::<Seq<u8>, Seq<char>>(message@),
        },
{
    let bytes = input.as_bytes();
    let mut output: Vec<u8> = Vec::new();
    let mut i: usize = 0;
    proof {
        assert(bytes@.skip(0) =~= bytes@);
        assert(decoded(bytes@) matches Ok(rest) ==> output@ + rest =~= rest);
    }
    while i < bytes.len()
        invariant
            i <= bytes.len(),
            bytes@ == input.spec_bytes(),
            match decoded(bytes@.skip(i as int)) {
                Ok(rest) => decoded(bytes@) == Ok::<Seq<u8>, Seq<char>>(output@ + rest),
                Err(message) => decoded(bytes@) == Err::<Seq<u8>, Seq<char>>(message),
            },
        decreases bytes.len() - i,
    {
        let ghost rest = bytes@.skip(i as int);
        let ghost before = output@;
        if bytes.len() - i < 4 {
            return Err("invalid base64 length".to_owned());
        }
        let a = match decode_symbol(bytes[i]) {
            Ok(v) => v,
            Err(message) => return Err(message),
        };
        let b = match decode_symbol(bytes[i + 1]) {
            Ok(v) => v,
            Err(message) => return Err(message),
        };
        let c = match decode_symbol(bytes[i + 2]) {
            Ok(v) => v,
            Err(message) => return Err(message),
        };
        let d = match decode_symbol(bytes[i + 3]) {
            Ok(v) => v,
            Err(message) => return Err(message),
        };
        output.push(a * 4 + b / 16);
        if bytes[i + 2] != 61 {
            output.push((b % 16) * 16 + c / 4);
        }
        if bytes[i + 3] != 61 {
            output.push((c % 4) * 64 + d);
        }
        i = i + 4;
        proof {
            assert(rest.skip(4) =~= bytes@.skip(i as int));
            assert(output@ =~= before + group_bytes(rest));
            assert(forall|tail: Seq<u8>|
                #![auto]
                before + (group_bytes(rest) + tail) =~= output@ + tail);
        }
    }
    proof {
        assert(bytes@.skip(i as int) =~= seq![]);
        assert(output@ + Seq::<u8>::empty() =~= output@);
    }
    Ok(output)
}

/// Base64 text is as long as four symbols for each started group of three bytes.
pub proof fn encoded_length(data: Seq<u8>)
    ensures
        encoded(data).len() == 4 * ((data.len() + 2) / 3),
    decreases data.len(),
{
    if data.len() > 2 {
        encoded_length(data.skip(3));
    }
}

/// Base64 text is ASCII, so its UTF-8 bytes are its symbols one for one.
proof fn lemma_encoded_is_ascii(data: Seq<u8>)
    ensures
        vstd::utf8::is_ascii_chars(encoded(data)),
        vstd::utf8::encode_utf8(encoded(data)) == encoded(data).map_values(|c: char| c as u8),
    decreases data.len(),
{
    if data.len() > 2 {
        lemma_encoded_is_ascii(data.skip(3));
    }
    vstd::utf8::is_ascii_chars_encode_utf8(encoded(data));
    assert(vstd::utf8::encode_utf8(encoded(data)) =~= encoded(data).map_values(|c: char| c as u8));
}

/// A symbol, read as a byte, has the value that it stands for, and is not the padding.
proof fn lemma_symbol_value(v: u8)
    requires
        v < 64,
    ensures
        symbol_value(symbol(v) as u8) == Some(v),
        symbol(v) as u8 != 61,
{
}

/// Cutting three bytes into four six-bit values loses nothing.
proof fn lemma_six_bit_values(a: u8, b: u8, c: u8)
    ensures
        ({
            let v = ((a % 4) * 16 + b / 16) as u8;
            let w = ((b % 16) * 4 + c / 64) as u8;
            &&& a / 4 < 64 && v < 64 && w < 64 && c % 64 < 64
            &&& (a / 4) * 4 + v / 16 == a
            &&& (v % 16) * 16 + w / 4 == b
            &&& (w % 4) * 64 + c % 64 == c
        }),
{
}

/// A text that begins with the symbols `v`, `w`, `x`, `y` has a first group without a fault.
proof fn lemma_first_group(s: Seq<u8>, v: u8, w: u8, x: u8, y: u8)
    requires
        s.len() >= 4,
        v < 64,
        w < 64,
        x < 64,
        y < 64,
        s[0] == symbol(v) as u8,
        s[1] == symbol(w) as u8,
        s[2] == symbol(x) as u8 || (s[2] == 61 && x == 0),
        s[3] == symbol(y) as u8 || (s[3] == 61 && y == 0),
    ensures
        group_fault(s) is None,
        group_bytes(s) == seq![(v * 4 + w / 16) as u8] + (if s[2] == 61 {
            seq![]
        } else {
            seq![((w % 16) * 16 + x / 4) as u8]
        }) + (if s[3] == 61 {
            seq![]
        } else {
            seq![((x % 4) * 64 + y) as u8]
        }),
{
    lemma_symbol_value(v);
    lemma_symbol_value(w);
    lemma_symbol_value(x);
    lemma_symbol_value(y);
}

/// Decoding gives back what was encoded, for all data.
pub proof fn decode_inverts_encode(data: Seq<u8>)
    ensures
        decoded_text(encoded(data)) == Ok::<Seq<u8>, Seq<char>>(data),
    decreases data.len(), 1nat,
{
    lemma_encoded_is_ascii(data);
    let s = vstd::utf8::encode_utf8(encoded(data));
    if data.len() == 0 {
        assert(data =~= seq![]);
    } else if data.len() == 1 {
        lemma_six_bit_values(data[0], 0, 0);
        lemma_first_group(s, data[0] / 4, ((data[0] % 4) * 16) as u8, 0, 0);
        assert(s.skip(4) =~= seq![]);
        assert(decoded(s.skip(4)) == Ok::<Seq<u8>, Seq<char>>(seq![]));
        assert(group_bytes(s) + Seq::<u8>::empty() =~= data);
    } else if data.len() == 2 {
        let v = ((data[0] % 4) * 16 + data[1] / 16) as u8;
        let w = ((data[1] % 16) * 4) as u8;
        lemma_six_bit_values(data[0], data[1], 0);
        lemma_first_group(s, data[0] / 4, v, w, 0);
        lemma_symbol_value(w);
        assert(s.skip(4) =~= seq![]);
        assert(decoded(s.skip(4)) == Ok::<Seq<u8>, Seq<char>>(seq![]));
        assert(group_bytes(s) + Seq::<u8>::empty() =~= data);
    } else {
        lemma_decode_full_group(data);
    }
}

proof fn lemma_decode_full_group(data: Seq<u8>)
    requires
        data.len() > 2,
    ensures
        decoded(vstd::utf8::encode_utf8(encoded(data))) == Ok::<Seq<u8>, Seq<char>>(data),
    decreases data.len(), 0nat,
{
    let s = vstd::utf8::encode_utf8(encoded(data));
    let v = ((data[0] % 4) * 16 + data[1] / 16) as u8;
    let w = ((data[1] % 16) * 4 + data[2] / 64) as u8;
    lemma_encoded_is_ascii(data);
    lemma_encoded_is_ascii(data.skip(3));
    lemma_six_bit_values(data[0], data[1], data[2]);
    assert(s.len() >= 4 && s[0] == symbol(data[0] / 4) as u8 && s[1] == symbol(v) as u8 && s[2]
        == symbol(w) as u8 && s[3] == symbol(data[2] % 64) as u8);
    lemma_first_group(s, data[0] / 4, v, w, data[2] % 64);
    lemma_symbol_value(w);
    lemma_symbol_value(data[2] % 64);
    assert(group_bytes(s) =~= seq![data[0], data[1], data[2]]);
    assert(s.skip(4) =~= vstd::utf8::encode_utf8(encoded(data.skip(3))));
    decode_inverts_encode(data.skip(3));
    assert(seq![data[0], data[1], data[2]] + data.skip(3) =~= data);
}

/// Text decodes exactly when its length is a multiple of four and each of its bytes is a
/// symbol or padding.
pub proof fn decodes_iff_well_formed(s: Seq<u8>)
    ensures
        decoded(s) is Ok <==> s.len() % 4 == 0 && forall|i: int|
            0 <= i < s.len() ==> #[trigger] symbol_value(s[i]) is Some,
    decreases s.len(),
{
    if s.len() >= 4 {
        let t = s.skip(4);
        decodes_iff_well_formed(t);
        if decoded(s) is Ok {
            assert forall|i: int| 0 <= i < s.len() implies #[trigger] symbol_value(s[i]) is Some by {
                if i >= 4 {
                    assert(s[i] == t[i - 4]);
                    assert(symbol_value(t[i - 4]) is Some);
                }
            }
        }
        if s.len() % 4 == 0 && forall|i: int|
            0 <= i < s.len() ==> #[trigger] symbol_value(s[i]) is Some {
            assert forall|i: int| 0 <= i < t.len() implies #[trigger] symbol_value(t[i]) is Some by {
                assert(t[i] == s[i + 4]);
                assert(symbol_value(s[i + 4]) is Some);
            }
        }
    }
}

/// The symbols are those of the standard alphabet, in its order.
pub proof fn alphabet_is_the_standard_one(v: u8)
    requires
        v < 64,
    ensures
        symbol(v)
            == "ABCDEFGHIJKLMNOPQRSTUVWXYZabcdefghijklmnopqrstuvwxyz0123456789+/"@[v as int],
{
    reveal_strlit("ABCDEFGHIJKLMNOPQRSTUVWXYZabcdefghijklmnopqrstuvwxyz0123456789+/");
}

/// The bits of the data stand in the symbols in their order, the most significant first: three
/// bytes and the four symbols for them are the same number of 24 bits.
pub proof fn groups_keep_the_order_of_bits(a: u8, b: u8, c: u8, rest: Seq<u8>)
    ensures
        ({
            let text = encoded(seq![a, b, c] + rest);
            let alphabet =
                "ABCDEFGHIJKLMNOPQRSTUVWXYZabcdefghijklmnopqrstuvwxyz0123456789+/"@;
            exists|w: int, x: int, y: int, z: int|
                #![trigger alphabet[w], alphabet[x], alphabet[y], alphabet[z]]
                0 <= w < 64 && 0 <= x < 64 && 0 <= y < 64 && 0 <= z < 64 && text[0] == alphabet[w]
                    && text[1] == alphabet[x] && text[2] == alphabet[y] && text[3] == alphabet[z]
                    && w * 262144 + x * 4096 + y * 64 + z == a * 65536 + b * 256 + c
        }),
{
    let data = seq![a, b, c] + rest;
    let text = encoded(data);
    let alphabet = "ABCDEFGHIJKLMNOPQRSTUVWXYZabcdefghijklmnopqrstuvwxyz0123456789+/"@;
    let w = (a / 4) as u8;
    let x = ((a % 4) * 16 + b / 16) as u8;
    let y = ((b % 16) * 4 + c / 64) as u8;
    let z = (c % 64) as u8;
    alphabet_is_the_standard_one(w);
    alphabet_is_the_standard_one(x);
    alphabet_is_the_standard_one(y);
    alphabet_is_the_standard_one(z);
    assert(data[0] == a && data[1] == b && data[2] == c);
    assert(text[0] == alphabet[w as int] && text[1] == alphabet[x as int] && text[2]
        == alphabet[y as int] && text[3] == alphabet[z as int]);
}

} // verus!
