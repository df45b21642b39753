//! The JSON text of the library's artifacts: string escaping, integers,
//! arrays and objects, written to byte buffers.

use vstd::prelude::*;

use crate::order::views;

verus! {

/// The UTF-8 bytes of a fragment of literal JSON text.
pub open spec fn lit(s: &str) -> Seq<u8> {
    vstd::utf8::encode_utf8(s@)
}

/// A lower-case hexadecimal digit byte for a value below 16.
pub open spec fn hex_byte(n: int) -> u8 {
    if n < 10 {
        (48 + n) as u8
    } else {
        (87 + n) as u8
    }
}

/// The JSON escape of one byte of a string's UTF-8 encoding: the quote, the
/// backslash and the control characters with a short escape take it, other
/// control characters take `\u00XX`.
pub open spec fn escape_byte(b: u8) -> Seq<u8> {
    if b == 34 {
        seq![92u8, 34u8]
    } else if b == 92 {
        seq![92u8, 92u8]
    } else if b == 8 {
        seq![92u8, 98u8]
    } else if b == 12 {
        seq![92u8, 102u8]
    } else if b == 10 {
        seq![92u8, 110u8]
    } else if b == 13 {
        seq![92u8, 114u8]
    } else if b == 9 {
        seq![92u8, 116u8]
    } else if b < 32 {
        seq![92u8, 117u8, 48u8, 48u8, hex_byte(b as int / 16), hex_byte(b as int % 16)]
    } else {
        seq![b]
    }
}

/// The JSON escape of a byte string.
pub open spec fn escape_bytes(s: Seq<u8>) -> Seq<u8>
    decreases s.len(),
{
    if s.len() == 0 {
        Seq::empty()
    } else {
        escape_bytes(s.drop_last()) + escape_byte(s.last())
    }
}

/// A JSON string literal holding `s`.
pub open spec fn json_str(s: Seq<char>) -> Seq<u8> {
    seq![34u8] + escape_bytes(vstd::utf8::encode_utf8(s)) + seq![34u8]
}

/// The decimal digits of a natural number.
pub open spec fn decimal(n: nat) -> Seq<u8>
    decreases n,
{
    if n < 10 {
        seq![(48 + n) as u8]
    } else {
        decimal(n / 10) + seq![(48 + n % 10) as u8]
    }
}

/// A JSON integer.
pub open spec fn json_int(n: int) -> Seq<u8> {
    if n < 0 {
        seq![45u8] + decimal((-n) as nat)
    } else {
        decimal(n as nat)
    }
}

/// An optional integer: `null` when absent.
pub open spec fn json_opt_int(n: Option<int>) -> Seq<u8> {
    match n {
        Some(v) => json_int(v),
        None => lit("null"),
    }
}

/// An optional string: `null` when absent.
pub open spec fn json_opt_str(s: Option<Seq<char>>) -> Seq<u8> {
    match s {
        Some(v) => json_str(v),
        None => lit("null"),
    }
}

/// Items joined by commas.
pub open spec fn join_commas(items: Seq<Seq<u8>>) -> Seq<u8>
    decreases items.len(),
{
    if items.len() == 0 {
        Seq::empty()
    } else if items.len() == 1 {
        items[0]
    } else {
        join_commas(items.drop_last()) + seq![44u8] + items.last()
    }
}

/// A JSON array of already encoded items.
pub open spec fn json_array(items: Seq<Seq<u8>>) -> Seq<u8> {
    seq![91u8] + join_commas(items) + seq![93u8]
}

/// Values with a JSON text, stated over their view.
pub trait ToJson: View + Sized {
    spec fn json_of(v: Self::V) -> Seq<u8>;

    fn write_json(&self, buf: &mut Vec<u8>)
        ensures
            final(buf)@ == old(buf)@ + Self::json_of(self@),
    ;
}

/// The JSON array of the views of `items`.
pub open spec fn json_array_of<T: ToJson>(items: Seq<T::V>) -> Seq<u8> {
    json_array(items.map_values(|v: T::V| T::json_of(v)))
}

/// Append literal JSON text.
pub fn push_lit(buf: &mut Vec<u8>, s: &str)
    ensures
        final(buf)@ == old(buf)@ + lit(s),
{
    let bytes = s.as_bytes();
    let n = bytes.len();
    let mut i: usize = 0;
    while i < n
        invariant
            n == bytes@.len(),
            bytes@ == lit(s),
            i <= n,
            buf@ == old(buf)@ + bytes@.take(i as int),
        decreases n - i,
    {
        buf.push(bytes[i]);
        assert(bytes@.take(i + 1) =~= bytes@.take(i as int).push(bytes@[i as int]));
        i += 1;
    }
    assert(bytes@.take(n as int) =~= bytes@);
}

fn hex_nibble(n: u8) -> (r: u8)
    requires
        n < 16,
    ensures
        r == hex_byte(n as int),
{
    if n < 10 {
        48 + n
    } else {
        87 + n
    }
}

/// Append a JSON string literal holding `s`.
pub fn push_json_str(buf: &mut Vec<u8>, s: &str)
    ensures
        final(buf)@ == old(buf)@ + json_str(s@),
{
    let bytes = s.as_bytes();
    let n = bytes.len();
    buf.push(34);
    let ghost start = buf@;
    let mut i: usize = 0;
    assert(bytes@.take(0) =~= Seq::<u8>::empty());
    while i < n
        invariant
            n == bytes@.len(),
            bytes@ == vstd::utf8::encode_utf8(s@),
            i <= n,
            buf@ == start + escape_bytes(bytes@.take(i as int)),
        decreases n - i,
    {
        let b = bytes[i];
        let ghost prev = buf@;
        if b == 34 {
            buf.push(92);
            buf.push(34);
        } else if b == 92 {
            buf.push(92);
            buf.push(92);
        } else if b == 8 {
            buf.push(92);
            buf.push(98);
        } else if b == 12 {
            buf.push(92);
            buf.push(102);
        } else if b == 10 {
            buf.push(92);
            buf.push(110);
        } else if b == 13 {
            buf.push(92);
            buf.push(114);
        } else if b == 9 {
            buf.push(92);
            buf.push(116);
        } else if b < 32 {
            buf.push(92);
            buf.push(117);
            buf.push(48);
            buf.push(48);
            buf.push(hex_nibble(b / 16));
            buf.push(hex_nibble(b % 16));
        } else {
            buf.push(b);
        }
        proof {
            assert(buf@ =~= prev + escape_byte(b));
            assert(bytes@.take(i + 1).drop_last() =~= bytes@.take(i as int));
            assert(bytes@.take(i + 1).last() == b);
        }
        i += 1;
    }
    buf.push(34);
    assert(bytes@.take(n as int) =~= bytes@);
    assert(buf@ =~= old(buf)@ + json_str(s@));
}

/// Append the decimal digits of `n`.
fn push_decimal(buf: &mut Vec<u8>, n: u64)
    ensures
        final(buf)@ == old(buf)@ + decimal(n as nat),
    decreases n,
{
    if n >= 10 {
        push_decimal(buf, n / 10);
    }
    buf.push(48 + (n % 10) as u8);
    proof {
        assert(buf@ =~= old(buf)@ + decimal(n as nat));
    }
}

/// Append a JSON integer.
pub fn push_json_int(buf: &mut Vec<u8>, n: i64)
    ensures
        final(buf)@ == old(buf)@ + json_int(n as int),
{
    if n < 0 {
        buf.push(45);
        let magnitude: u64 = (0i128 - n as i128) as u64;
        push_decimal(buf, magnitude);
        assert(buf@ =~= old(buf)@ + json_int(n as int));
    } else {
        push_decimal(buf, n as u64);
    }
}

/// Append a JSON integer.
pub fn push_json_uint(buf: &mut Vec<u8>, n: u64)
    ensures
        final(buf)@ == old(buf)@ + json_int(n as int),
{
    push_decimal(buf, n);
}

/// Append an optional integer.
pub fn push_json_opt_int(buf: &mut Vec<u8>, n: Option<i64>)
    ensures
        final(buf)@ == old(buf)@ + json_opt_int(
            match n {
                Some(v) => Some(v as int),
                None => None,
            },
        ),
{
    match n {
        Some(v) => push_json_int(buf, v),
        None => push_lit(buf, "null"),
    }
}

/// Append an optional string.
pub fn push_json_opt_str(buf: &mut Vec<u8>, s: &Option<String>)
    ensures
        final(buf)@ == old(buf)@ + json_opt_str(
            match s {
                Some(v) => Some(v@),
                None => None,
            },
        ),
{
    match s {
        Some(v) => push_json_str(buf, v.as_str()),
        None => push_lit(buf, "null"),
    }
}

proof fn lemma_join_step(items: Seq<Seq<u8>>, i: int)
    requires
        0 <= i < items.len(),
    ensures
        join_commas(items.take(i + 1)) == if i == 0 {
            items[0]
        } else {
            join_commas(items.take(i)) + seq![44u8] + items[i]
        },
{
    let t = items.take(i + 1);
    if i == 0 {
        assert(t.len() == 1);
    } else {
        assert(t.drop_last() =~= items.take(i));
    }
}

/// Append the JSON array of `items`.
pub fn push_json_array<T: ToJson>(buf: &mut Vec<u8>, items: &Vec<T>)
    ensures
        final(buf)@ == old(buf)@ + json_array_of::<T>(views(items@)),
{
    let ghost enc = views(items@).map_values(|v: T::V| T::json_of(v));
    buf.push(91);
    let ghost start = buf@;
    let n = items.len();
    let mut i: usize = 0;
    assert(enc.take(0) =~= Seq::<Seq<u8>>::empty());
    while i < n
        invariant
            n == items@.len(),
            enc == views(items@).map_values(|v: T::V| T::json_of(v)),
            i <= n,
            buf@ == start + join_commas(enc.take(i as int)),
        decreases n - i,
    {
        let ghost prev = buf@;
        proof {
            lemma_join_step(enc, i as int);
            assert(enc[i as int] == T::json_of(items@[i as int]@));
        }
        if i > 0 {
            buf.push(44);
        }
        items[i].write_json(buf);
        proof {
            if i == 0 {
                assert(enc.take(0) =~= Seq::<Seq<u8>>::empty());
                assert(buf@ =~= start + join_commas(enc.take(i + 1)));
            } else {
                assert(buf@ =~= start + join_commas(enc.take(i + 1)));
            }
        }
        i += 1;
    }
    buf.push(93);
    assert(enc.take(n as int) =~= enc);
    assert(buf@ =~= old(buf)@ + json_array_of::<T>(views(items@)));
}

impl ToJson for String {
    open spec fn json_of(v: Seq<char>) -> Seq<u8> {
        json_str(v)
    }

    fn write_json(&self, buf: &mut Vec<u8>) {
        push_json_str(buf, self.as_str());
    }
}

impl ToJson for u32 {
    open spec fn json_of(v: u32) -> Seq<u8> {
        json_int(v as int)
    }

    fn write_json(&self, buf: &mut Vec<u8>) {
        push_json_uint(buf, *self as u64);
    }
}

} // verus!
