//! Base64 without padding, the form in which a request carries its data.

use vstd::prelude::*;

verus! {

/// The symbol of a number below 64.
pub open spec fn symbol(v: nat) -> u8 {
    if v < 26 {
        (65 + v) as u8
    } else if v < 52 {
        (97 + (v - 26)) as u8
    } else if v < 62 {
        (48 + (v - 52)) as u8
    } else if v == 62 {
        43
    } else {
        47
    }
}

/// The number that three bytes make, the first being the most significant.
pub open spec fn triple(a: u8, b: u8, c: u8) -> nat {
    (a * 65536 + b * 256 + c) as nat
}

/// The base64 text of `data`: four symbols for three bytes, and two or three symbols for what
/// is left over.
pub open spec fn b64(data: Seq<u8>) -> Seq<u8>
    decreases data.len(),
{
    if data.len() == 0 {
        Seq::empty()
    } else if data.len() == 1 {
        let n = triple(data[0], 0, 0);
        seq![symbol(n / 262144), symbol(n / 4096 % 64)]
    } else if data.len() == 2 {
        let n = triple(data[0], data[1], 0);
        seq![symbol(n / 262144), symbol(n / 4096 % 64), symbol(n / 64 % 64)]
    } else {
        let n = triple(data[0], data[1], data[2]);
        seq![symbol(n / 262144), symbol(n / 4096 % 64), symbol(n / 64 % 64), symbol(n % 64)] + b64(
            data.skip(3),
        )
    }
}

/// The symbol of a number below 64.
fn b64_symbol(v: u32) -> (r: u8)
    requires
        v < 64,
    ensures
        r == symbol(v as nat),
{
    if v < 26 {
        65 + v as u8
    } else if v < 52 {
        97 + (v - 26) as u8
    } else if v < 62 {
        48 + (v - 52) as u8
    } else if v == 62 {
        43
    } else {
        47
    }
}

/// Appends the base64 text of `data`.
pub fn write_b64(data: &[u8], buf: &mut Vec<u8>)
    ensures
        final(buf)@ == old(buf)@ + b64(data@),
{
    let mut i: usize = 0;
    assert(data@.skip(0) =~= data@);
    while data.len() - i >= 3
        invariant
            i <= data@.len(),
            buf@ + b64(data@.skip(i as int)) == old(buf)@ + b64(data@),
        decreases data.len() - i,
    {
        let n: u32 = data[i] as u32 * 65536 + data[i + 1] as u32 * 256 + data[i + 2] as u32;
        let ghost before = buf@;
        let ghost rest = data@.skip(i as int);
        assert(n as nat == triple(rest[0], rest[1], rest[2]));
        buf.push(b64_symbol(n / 262144));
        buf.push(b64_symbol(n / 4096 % 64));
        buf.push(b64_symbol(n / 64 % 64));
        buf.push(b64_symbol(n % 64));
        assert(rest.skip(3) =~= data@.skip(i + 3));
        assert(buf@ + b64(data@.skip(i + 3)) =~= before + b64(rest));
        i += 3;
    }
    let ghost rest = data@.skip(i as int);
    let ghost before = buf@;
    if data.len() - i == 1 {
        let n: u32 = data[i] as u32 * 65536;
        assert(n as nat == triple(rest[0], 0, 0));
        buf.push(b64_symbol(n / 262144));
        buf.push(b64_symbol(n / 4096 % 64));
    } else if data.len() - i == 2 {
        let n: u32 = data[i] as u32 * 65536 + data[i + 1] as u32 * 256;
        assert(n as nat == triple(rest[0], rest[1], 0));
        buf.push(b64_symbol(n / 262144));
        buf.push(b64_symbol(n / 4096 % 64));
        buf.push(b64_symbol(n / 64 % 64));
    }
    assert(buf@ =~= before + b64(rest));
}

/// The number that a symbol stands for.
#[verifier::opaque]
pub open spec fn symbol_value(c: u8) -> nat {
    if 65 <= c <= 90 {
        (c - 65) as nat
    } else if 97 <= c <= 122 {
        (c - 97 + 26) as nat
    } else if 48 <= c <= 57 {
        (c - 48 + 52) as nat
    } else if c == 43 {
        62
    } else {
        63
    }
}

/// The bytes that a base64 text stands for.
pub open spec fn b64_decoded(s: Seq<u8>) -> Seq<u8>
    decreases s.len(),
{
    if s.len() < 2 {
        Seq::empty()
    } else {
        let n = symbol_value(s[0]) * 262144 + symbol_value(s[1]) * 4096;
        if s.len() == 2 {
            seq![(n / 65536) as u8]
        } else if s.len() == 3 {
            let n = n + symbol_value(s[2]) * 64;
            seq![(n / 65536) as u8, (n / 256 % 256) as u8]
        } else {
            let n = n + symbol_value(s[2]) * 64 + symbol_value(s[3]);
            seq![(n / 65536) as u8, (n / 256 % 256) as u8, (n % 256) as u8] + b64_decoded(s.skip(4))
        }
    }
}

/// A symbol stands for the number that it was chosen for.
proof fn lemma_symbol_value(v: nat)
    requires
        v < 64,
    ensures
        symbol_value(symbol(v)) == v,
{
    reveal(symbol_value);
}

/// The four numbers that three bytes are cut into put together give the three bytes.
proof fn lemma_triple(a: u8, b: u8, c: u8)
    ensures
        ({
            let n = triple(a, b, c);
            &&& n / 262144 < 64
            &&& (n / 262144) * 262144 + (n / 4096 % 64) * 4096 + (n / 64 % 64) * 64 + n % 64 == n
            &&& b == 0 && c == 0 ==> (n / 64 % 64) == 0
            &&& c == 0 ==> n % 64 == 0
            &&& n / 65536 == a
            &&& n / 256 % 256 == b
            &&& n % 256 == c
        }),
{
    let n: u32 = (a * 65536 + b * 256 + c) as u32;
    assert(n / 262144 < 64 && (n / 262144) * 262144 + (n / 4096 % 64) * 4096 + (n / 64 % 64) * 64
        + n % 64 == n) by (bit_vector)
        requires
            n < 0x1000000,
    ;
    assert((b == 0 && c == 0 ==> n / 64 % 64 == 0) && (c == 0 ==> n % 64 == 0) && n / 65536
        == a as u32 && n / 256 % 256 == b as u32 && n % 256 == c as u32) by (bit_vector)
        requires
            n == a * 65536 + b * 256 + c,
    ;
}

/// Decoding the base64 text of any data gives the data back.
pub proof fn lemma_b64_round_trip(data: Seq<u8>)
    ensures
        b64_decoded(b64(data)) == data,
    decreases data.len(),
{
    let a = if data.len() > 0 {
        data[0]
    } else {
        0u8
    };
    let b = if data.len() > 1 {
        data[1]
    } else {
        0u8
    };
    let c = if data.len() > 2 {
        data[2]
    } else {
        0u8
    };
    let n = triple(a, b, c);
    lemma_triple(a, b, c);
    lemma_symbol_value(n / 262144);
    lemma_symbol_value(n / 4096 % 64);
    lemma_symbol_value(n / 64 % 64);
    lemma_symbol_value(n % 64);
    let s = b64(data);
    if data.len() >= 3 {
        lemma_b64_round_trip(data.skip(3));
        assert(s.skip(4) =~= b64(data.skip(3)));
        assert(b64_decoded(s) =~= seq![a, b, c] + data.skip(3));
        assert(data =~= seq![a, b, c] + data.skip(3));
    } else if data.len() == 2 {
        assert(b64_decoded(s) =~= seq![a, b]);
        assert(data =~= seq![a, b]);
    } else if data.len() == 1 {
        assert(b64_decoded(s) =~= seq![a]);
        assert(data =~= seq![a]);
    } else {
        assert(data =~= Seq::empty());
    }
}

/// The base64 text of `n` bytes has four symbols for every three bytes, rounded up to whole
/// symbols.
pub proof fn lemma_b64_len(data: Seq<u8>)
    ensures
        b64(data).len() == (4 * data.len() + 2) / 3,
    decreases data.len(),
{
    if data.len() >= 3 {
        lemma_b64_len(data.skip(3));
    }
}

/// The base64 text holds only letters, digits, `+` and `/`, so it can end no packet.
pub proof fn lemma_b64_symbols(data: Seq<u8>)
    ensures
        forall|i: int|
            #![trigger b64(data)[i]]
            0 <= i < b64(data).len() ==> {
                let c = b64(data)[i];
                65 <= c <= 90 || 97 <= c <= 122 || 48 <= c <= 57 || c == 43 || c == 47
            },
    decreases data.len(),
{
    if data.len() >= 3 {
        lemma_b64_symbols(data.skip(3));
        let rest = b64(data.skip(3));
        assert forall|i: int|
            #![trigger b64(data)[i]]
            0 <= i < b64(data).len() implies {
            let c = b64(data)[i];
            65 <= c <= 90 || 97 <= c <= 122 || 48 <= c <= 57 || c == 43 || c == 47
        } by {
            if i >= 4 {
                assert(b64(data)[i] == rest[i - 4]);
            }
        }
    }
}

/// The alphabet: the upper-case letters, the lower-case letters and the digits, each in their
/// order, then plus and slash.
pub proof fn lemma_alphabet(v: nat)
    requires
        v < 64,
    ensures
        v < 26 ==> symbol(v) as int - 'A' as int == v,
        26 <= v < 52 ==> symbol(v) as int - 'a' as int == v - 26,
        52 <= v < 62 ==> symbol(v) as int - '0' as int == v - 52,
        v == 62 ==> symbol(v) as int == '+' as int,
        v == 63 ==> symbol(v) as int == '/' as int,
{
}

} // verus!
