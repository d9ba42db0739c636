use vstd::prelude::*;
use vstd::string::StringSliceAdditionalSpecFns;

verus! {

/// Line feed.
pub const LF: u8 = 10;

/// Carriage return.
pub const CR: u8 = 13;

/// The bytes the serial line carries for one byte of text: a carriage
/// return then the line feed for a line feed, the byte alone otherwise.
pub open spec fn serial_byte_encoding(byte: u8) -> Seq<u8> {
    if byte == LF {
        seq![CR, LF]
    } else {
        seq![byte]
    }
}

/// The bytes the serial line carries for `bytes`: every byte in order, each
/// line feed preceded by a carriage return.
pub open spec fn serial_encoding(bytes: Seq<u8>) -> Seq<u8>
    decreases bytes.len(),
{
    if bytes.len() == 0 {
        Seq::empty()
    } else {
        serial_encoding(bytes.drop_last()) + serial_byte_encoding(bytes.last())
    }
}

/// A single byte goes out alone, except a line feed, which goes out as a
/// carriage return followed by the line feed.
pub proof fn lemma_serial_encoding_single(byte: u8)
    ensures
        byte != LF ==> serial_encoding(seq![byte]) == seq![byte],
        byte == LF ==> serial_encoding(seq![byte]) == seq![CR, LF],
{
    assert(seq![byte].drop_last() =~= Seq::<u8>::empty());
    assert(serial_encoding(seq![byte]) =~= serial_encoding(Seq::<u8>::empty())
        + serial_byte_encoding(byte));
}

/// Text is sent piece by piece: the bytes for `a` followed by `b` are the
/// bytes for `a` followed by the bytes for `b`.
pub proof fn lemma_serial_encoding_concat(a: Seq<u8>, b: Seq<u8>)
    ensures
        serial_encoding(a + b) == serial_encoding(a) + serial_encoding(b),
    decreases b.len(),
{
    if b.len() == 0 {
        assert(a + b =~= a);
        assert(serial_encoding(a) + serial_encoding(b) =~= serial_encoding(a));
    } else {
        assert((a + b).drop_last() =~= a + b.drop_last());
        assert((a + b).last() == b.last());
        lemma_serial_encoding_concat(a, b.drop_last());
        assert(serial_encoding(a + b) =~= serial_encoding(a) + serial_encoding(b));
    }
}

/// Every byte is sent, so the stream is as long as the text plus one
/// carriage return for each line feed in it.
pub proof fn lemma_serial_encoding_len(bytes: Seq<u8>)
    ensures
        serial_encoding(bytes).len() == bytes.len() + bytes.filter(|b: u8| b == LF).len(),
    decreases bytes.len(),
{
    reveal(Seq::filter);
    if bytes.len() > 0 {
        lemma_serial_encoding_len(bytes.drop_last());
    }
}

/// What to send for one byte of text: the carriage return to put first, if
/// any, and then the byte itself.
pub fn serial_bytes(byte: u8) -> (out: (Option<u8>, u8))
    ensures
        out.0 == (if byte == LF {
            Some(CR)
        } else {
            None
        }),
        out.1 == byte,
{
    if byte == LF {
        (Some(CR), byte)
    } else {
        (None, byte)
    }
}

/// The byte stream that writing `s` to the UART transmits, in order: the
/// UTF-8 bytes of `s` with a carriage return inserted before each line feed.
pub fn puts(s: &str) -> (out: Vec<u8>)
    ensures
        out@ == serial_encoding(s.spec_bytes()),
        out@.len() == s.spec_bytes().len() + s.spec_bytes().filter(|b: u8| b == LF).len(),
{
    let bytes = s.as_bytes();
    let mut out: Vec<u8> = Vec::new();
    let mut i: usize = 0;
    while i < bytes.len()
        invariant
            bytes@ == s.spec_bytes(),
            i <= bytes@.len(),
            out@ == serial_encoding(bytes@.subrange(0, i as int)),
        decreases bytes@.len() - i,
    {
        let byte = bytes[i];
        proof {
            let next = bytes@.subrange(0, i + 1);
            assert(next.drop_last() =~= bytes@.subrange(0, i as int));
            assert(next.last() == byte);
        }
        let (prefix, last) = serial_bytes(byte);
        if let Some(cr) = prefix {
            out.push(cr);
        }
        out.push(last);
        i = i + 1;
    }
    proof {
        assert(bytes@.subrange(0, bytes@.len() as int) =~= bytes@);
        lemma_serial_encoding_len(s.spec_bytes());
    }
    out
}

/// The ASCII character of a decimal digit: the byte `'0' + digit`.
pub fn put_digit(digit: u8) -> (c: u8)
    requires
        digit <= 255 - 48,
    ensures
        c == 48 + digit,
{
    48u8 + digit
}

} // verus!
