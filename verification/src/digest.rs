//! The text of a fingerprint and its digest.
//!
//! A fingerprint is the MD5 digest, in lowercase hexadecimal, of a line of
//! decimal numbers. The line is kept as ASCII bytes.

use vstd::prelude::*;
use vstd::string::StringExecFns;
use md5::Digest;

verus! {

/// The number in decimal, without leading zeros, as ASCII bytes.
pub open spec fn decimal(n: nat) -> Seq<u8>
    decreases n,
{
    if n < 10 {
        seq![(48 + n) as u8]
    } else {
        decimal(n / 10).push((48 + n % 10) as u8)
    }
}

/// The items with a `-` between each two.
pub open spec fn dash_joined(items: Seq<Seq<u8>>) -> Seq<u8>
    decreases items.len(),
{
    if items.len() == 0 {
        Seq::empty()
    } else if items.len() == 1 {
        items[0]
    } else {
        dash_joined(items.drop_last()) + seq![45u8] + items.last()
    }
}

/// The decimal texts of a list of 16-bit values.
pub open spec fn decimals16(vals: Seq<u16>) -> Seq<Seq<u8>> {
    Seq::new(vals.len(), |i: int| decimal(vals[i] as nat))
}

/// The decimal texts of a list of bytes.
pub open spec fn decimals8(vals: Seq<u8>) -> Seq<Seq<u8>> {
    Seq::new(vals.len(), |i: int| decimal(vals[i] as nat))
}

/// The lowercase hexadecimal digit for `n` below 16.
pub open spec fn hex_char(n: int) -> char {
    if n == 0 {
        '0'
    } else if n == 1 {
        '1'
    } else if n == 2 {
        '2'
    } else if n == 3 {
        '3'
    } else if n == 4 {
        '4'
    } else if n == 5 {
        '5'
    } else if n == 6 {
        '6'
    } else if n == 7 {
        '7'
    } else if n == 8 {
        '8'
    } else if n == 9 {
        '9'
    } else if n == 10 {
        'a'
    } else if n == 11 {
        'b'
    } else if n == 12 {
        'c'
    } else if n == 13 {
        'd'
    } else if n == 14 {
        'e'
    } else {
        'f'
    }
}

/// The bytes in lowercase hexadecimal, two digits each.
pub open spec fn hex_text(bytes: Seq<u8>) -> Seq<char>
    decreases bytes.len(),
{
    if bytes.len() == 0 {
        Seq::empty()
    } else {
        hex_text(bytes.drop_last()).push(hex_char(bytes.last() as int / 16)).push(
            hex_char(bytes.last() as int % 16),
        )
    }
}

/// The number in decimal, without leading zeros, as text.
pub open spec fn decimal_text(n: nat) -> Seq<char>
    decreases n,
{
    if n < 10 {
        seq![hex_char(n as int)]
    } else {
        decimal_text(n / 10).push(hex_char((n % 10) as int))
    }
}

/// The low 8 bits of `v` in two lowercase hexadecimal digits.
pub open spec fn hex2(v: int) -> Seq<char> {
    seq![hex_char((v / 16) % 16), hex_char(v % 16)]
}

/// The low 16 bits of `v` in four lowercase hexadecimal digits.
pub open spec fn hex4(v: int) -> Seq<char> {
    seq![hex_char((v / 4096) % 16), hex_char((v / 256) % 16), hex_char((v / 16) % 16), hex_char(
        v % 16,
    )]
}

/// The MD5 digest of `data`.
pub uninterp spec fn md5_digest(data: Seq<u8>) -> Seq<u8>;

/// `Md5::digest` of the md-5 crate: the digest is a function of the data
/// alone, and the crate's output size is 16 bytes.
#[verifier::external_body]
pub(crate) fn md5(data: &[u8]) -> (out: Vec<u8>)
    ensures
        out@ == md5_digest(data@),
        out@.len() == 16,
{
    md5::Md5::digest(data).to_vec()
}

/// Appends `v` in decimal.
pub fn put_decimal(out: &mut Vec<u8>, v: u64)
    ensures
        final(out)@ == old(out)@ + decimal(v as nat),
    decreases v,
{
    if v >= 10 {
        put_decimal(out, v / 10);
    }
    out.push(48 + (v % 10) as u8);
    assert(out@ =~= old(out)@ + decimal(v as nat));
}

/// Appends the values in decimal with a `-` between each two.
pub fn put_joined16(out: &mut Vec<u8>, vals: &Vec<u16>)
    ensures
        final(out)@ == old(out)@ + dash_joined(decimals16(vals@)),
{
    let ghost all = decimals16(vals@);
    let mut i: usize = 0;
    while i < vals.len()
        invariant
            i <= vals.len(),
            all == decimals16(vals@),
            out@ == old(out)@ + dash_joined(all.take(i as int)),
        decreases vals.len() - i,
    {
        let ghost before = out@;
        if i > 0 {
            out.push(45u8);
        }
        put_decimal(out, vals[i] as u64);
        proof {
            let next = all.take(i + 1);
            assert(next.drop_last() =~= all.take(i as int));
            assert(next.last() == decimal(vals[i as int] as nat));
            assert(out@ =~= old(out)@ + dash_joined(next));
        }
        i += 1;
    }
    assert(all.take(i as int) =~= all);
}

/// Appends the bytes as decimal numbers with a `-` between each two.
pub fn put_joined8(out: &mut Vec<u8>, vals: &Vec<u8>)
    ensures
        final(out)@ == old(out)@ + dash_joined(decimals8(vals@)),
{
    let ghost all = decimals8(vals@);
    let mut i: usize = 0;
    while i < vals.len()
        invariant
            i <= vals.len(),
            all == decimals8(vals@),
            out@ == old(out)@ + dash_joined(all.take(i as int)),
        decreases vals.len() - i,
    {
        if i > 0 {
            out.push(45u8);
        }
        put_decimal(out, vals[i] as u64);
        proof {
            let next = all.take(i + 1);
            assert(next.drop_last() =~= all.take(i as int));
            assert(next.last() == decimal(vals[i as int] as nat));
            assert(out@ =~= old(out)@ + dash_joined(next));
        }
        i += 1;
    }
    assert(all.take(i as int) =~= all);
}

/// The lowercase hexadecimal digit for `n`.
pub fn hex_digit(n: u8) -> (d: &'static str)
    requires
        n < 16,
    ensures
        d@ == seq![hex_char(n as int)],
{
    proof {
        reveal_strlit("0");
        reveal_strlit("1");
        reveal_strlit("2");
        reveal_strlit("3");
        reveal_strlit("4");
        reveal_strlit("5");
        reveal_strlit("6");
        reveal_strlit("7");
        reveal_strlit("8");
        reveal_strlit("9");
        reveal_strlit("a");
        reveal_strlit("b");
        reveal_strlit("c");
        reveal_strlit("d");
        reveal_strlit("e");
        reveal_strlit("f");
    }
    let d: &'static str = match n {
        0 => "0",
        1 => "1",
        2 => "2",
        3 => "3",
        4 => "4",
        5 => "5",
        6 => "6",
        7 => "7",
        8 => "8",
        9 => "9",
        10 => "a",
        11 => "b",
        12 => "c",
        13 => "d",
        14 => "e",
        _ => "f",
    };
    assert(d@ =~= seq![hex_char(n as int)]);
    d
}

/// Appends `v` in decimal.
pub fn append_decimal(text: &mut String, v: u64)
    ensures
        final(text)@ == old(text)@ + decimal_text(v as nat),
    decreases v,
{
    if v >= 10 {
        append_decimal(text, v / 10);
    }
    text.append(hex_digit((v % 10) as u8));
    assert(text@ =~= old(text)@ + decimal_text(v as nat));
}

/// Appends a byte in two hexadecimal digits.
pub fn append_hex2(text: &mut String, v: u8)
    ensures
        final(text)@ == old(text)@ + hex2(v as int),
{
    text.append(hex_digit(v / 16));
    text.append(hex_digit(v % 16));
    assert(text@ =~= old(text)@ + hex2(v as int));
}

/// Appends a 16-bit value in four hexadecimal digits.
pub fn append_hex4(text: &mut String, v: u16)
    ensures
        final(text)@ == old(text)@ + hex4(v as int),
{
    text.append(hex_digit((v / 4096) as u8));
    text.append(hex_digit(((v / 256) % 16) as u8));
    text.append(hex_digit(((v / 16) % 16) as u8));
    text.append(hex_digit((v % 16) as u8));
    assert(text@ =~= old(text)@ + hex4(v as int));
}

/// The bytes in lowercase hexadecimal.
pub fn hex_lower(bytes: &[u8]) -> (text: String)
    ensures
        text@ == hex_text(bytes@),
{
    let mut text: String = String::new();
    let mut i: usize = 0;
    while i < bytes.len()
        invariant
            i <= bytes.len(),
            text@ == hex_text(bytes@.take(i as int)),
        decreases bytes.len() - i,
    {
        let b: u8 = bytes[i];
        text.append(hex_digit(b / 16));
        text.append(hex_digit(b % 16));
        proof {
            let next = bytes@.take(i + 1);
            assert(next.drop_last() =~= bytes@.take(i as int));
            assert(text@ =~= hex_text(next));
        }
        i += 1;
    }
    assert(bytes@.take(i as int) =~= bytes@);
    text
}

/// The MD5 digest of `text` in lowercase hexadecimal: 32 digits.
pub fn md5_hex(text: &[u8]) -> (digest: String)
    ensures
        digest@ == hex_text(md5_digest(text@)),
        digest@.len() == 32,
{
    let d: Vec<u8> = md5(text);
    proof {
        lemma_hex_text_len(d@);
    }
    hex_lower(d.as_slice())
}

/// Hexadecimal text has two digits for each byte.
pub proof fn lemma_hex_text_len(bytes: Seq<u8>)
    ensures
        hex_text(bytes).len() == 2 * bytes.len(),
    decreases bytes.len(),
{
    if bytes.len() > 0 {
        lemma_hex_text_len(bytes.drop_last());
    }
}

} // verus!
