//! Text as it may stand in an address.
use vstd::prelude::*;
use vstd::utf8::encode_utf8;

verus! {

/// Whether a byte stands for itself in an address: an ASCII letter or digit, or
/// one of `-`, `_`, `.` and `~`.
pub open spec fn is_plain(b: u8) -> bool {
    ||| 65 <= b <= 90
    ||| 97 <= b <= 122
    ||| 48 <= b <= 57
    ||| b == 45
    ||| b == 95
    ||| b == 46
    ||| b == 126
}

/// The hexadecimal digit for `d`, in capitals.
pub open spec fn hex(d: int) -> char {
    if d < 10 {
        ('0' as int + d) as char
    } else {
        ('A' as int + d - 10) as char
    }
}

/// A byte as it stands in an address: itself, or two digits behind a per cent
/// sign.
pub open spec fn encoded_byte(b: u8) -> Seq<char> {
    if is_plain(b) {
        seq![b as char]
    } else {
        seq!['%', hex(b as int / 16), hex(b as int % 16)]
    }
}

/// Bytes as they stand in an address.
pub open spec fn encoded(bytes: Seq<u8>) -> Seq<char>
    decreases bytes.len(),
{
    if bytes.len() == 0 {
        Seq::empty()
    } else {
        encoded_byte(bytes[0]) + encoded(bytes.skip(1))
    }
}

fn hex_digit(d: u8) -> (r: char)
    requires
        d < 16,
    ensures
        r == hex(d as int),
{
    if d < 10 {
        (48 + d) as char
    } else {
        (65 + (d - 10)) as char
    }
}

/// Text as it stands in an address: the bytes of its UTF-8 form, each as it may
/// stand there.
pub fn urlencode(s: &str) -> (r: String)
    ensures
        r@ == encoded(encode_utf8(s@)),
{
    let bytes = s.as_bytes();
    let mut out = String::new();
    let mut i: usize = 0;
    proof {
        assert(bytes@.skip(0) =~= bytes@);
        assert(out@ + encoded(bytes@) =~= encoded(bytes@));
    }
    while i < bytes.len()
        invariant
            i <= bytes@.len(),
            out@ + encoded(bytes@.skip(i as int)) == encoded(bytes@),
        decreases bytes@.len() - i,
    {
        let b = bytes[i];
        let ghost rest = bytes@.skip(i as int);
        let ghost out0 = out@;
        proof {
            assert(rest[0] == b);
            assert(rest.skip(1) =~= bytes@.skip(i + 1));
        }
        let plain = (65 <= b && b <= 90) || (97 <= b && b <= 122) || (48 <= b && b <= 57) || b == 45
            || b == 95 || b == 46 || b == 126;
        if plain {
            out.push(b as char);
        } else {
            out.push('%');
            out.push(hex_digit(b / 16));
            out.push(hex_digit(b % 16));
        }
        proof {
            assert(out@ =~= out0 + encoded_byte(b));
            assert(out@ + encoded(bytes@.skip(i + 1)) =~= out0 + (encoded_byte(b) + encoded(
                bytes@.skip(i + 1),
            )));
        }
        i += 1;
    }
    proof {
        assert(bytes@.skip(i as int) =~= Seq::<u8>::empty());
        assert(out@ + Seq::<char>::empty() =~= out@);
    }
    out
}

/// The value of a hexadecimal digit in capitals.
pub open spec fn hex_value(c: char) -> int {
    if c <= '9' {
        c as int - '0' as int
    } else {
        c as int - 'A' as int + 10
    }
}

/// The bytes that stand in an address.
pub open spec fn decoded(s: Seq<char>) -> Seq<u8>
    decreases s.len(),
{
    if s.len() == 0 {
        Seq::empty()
    } else if s[0] == '%' && s.len() >= 3 {
        seq![(hex_value(s[1]) * 16 + hex_value(s[2])) as u8] + decoded(s.skip(3))
    } else {
        seq![s[0] as u8] + decoded(s.skip(1))
    }
}

/// What was put in an address is read back from it.
pub proof fn an_encoded_text_is_read_back(bytes: Seq<u8>)
    ensures
        decoded(encoded(bytes)) == bytes,
    decreases bytes.len(),
{
    if bytes.len() > 0 {
        let b = bytes[0];
        let rest = bytes.skip(1);
        let s = encoded(bytes);
        an_encoded_text_is_read_back(rest);
        assert(seq![b] + rest =~= bytes);
        if is_plain(b) {
            assert(s[0] == b as char);
            assert(s.skip(1) =~= encoded(rest));
            assert(s[0] as u8 == b);
        } else {
            assert(s[0] == '%' && s[1] == hex(b as int / 16) && s[2] == hex(b as int % 16));
            assert(s.skip(3) =~= encoded(rest));
            assert(hex_value(s[1]) == b as int / 16);
            assert(hex_value(s[2]) == b as int % 16);
            assert((b as int / 16) * 16 + b as int % 16 == b as int);
        }
    } else {
        assert(decoded(encoded(bytes)) =~= bytes);
    }
}

/// Whether a character may stand in an address as it is.
pub open spec fn is_safe(c: char) -> bool {
    ||| 'A' <= c <= 'Z'
    ||| 'a' <= c <= 'z'
    ||| '0' <= c <= '9'
    ||| c == '-'
    ||| c == '_'
    ||| c == '.'
    ||| c == '~'
    ||| c == '%'
}

/// Nothing that has a meaning of its own in an address is left in it.
pub proof fn an_encoded_text_is_safe(bytes: Seq<u8>)
    ensures
        forall|i: int| 0 <= i < encoded(bytes).len() ==> is_safe(#[trigger] encoded(bytes)[i]),
    decreases bytes.len(),
{
    if bytes.len() > 0 {
        let rest = bytes.skip(1);
        let head = encoded_byte(bytes[0]);
        let s = encoded(bytes);
        an_encoded_text_is_safe(rest);
        assert forall|i: int| 0 <= i < s.len() implies is_safe(#[trigger] s[i]) by {
            if i < head.len() {
                assert(s[i] == head[i]);
            } else {
                assert(s[i] == encoded(rest)[i - head.len()]);
            }
        }
    }
}

} // verus!
