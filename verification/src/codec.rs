//! Standard base64 with padding: the text form of keys, nonces, sealed bodies
//! and file chunks.

use base64::Engine;
use vstd::prelude::*;

verus! {

/// The symbol of the standard base64 alphabet for a six-bit value.
pub open spec fn base64_symbol(n: int) -> char {
    if n < 26 {
        (65 + n) as char
    } else if n < 52 {
        (71 + n) as char
    } else if n < 62 {
        (n - 4) as char
    } else if n == 62 {
        '+'
    } else {
        '/'
    }
}

/// The padded standard base64 text of `bytes`.
pub open spec fn base64_encoding(bytes: Seq<u8>) -> Seq<char>
    decreases bytes.len(),
{
    if bytes.len() == 0 {
        Seq::empty()
    } else if bytes.len() == 1 {
        seq![
            base64_symbol(bytes[0] as int / 4),
            base64_symbol(bytes[0] as int % 4 * 16),
            '=',
            '=',
        ]
    } else if bytes.len() == 2 {
        seq![
            base64_symbol(bytes[0] as int / 4),
            base64_symbol(bytes[0] as int % 4 * 16 + bytes[1] as int / 16),
            base64_symbol(bytes[1] as int % 16 * 4),
            '=',
        ]
    } else {
        seq![
            base64_symbol(bytes[0] as int / 4),
            base64_symbol(bytes[0] as int % 4 * 16 + bytes[1] as int / 16),
            base64_symbol(bytes[1] as int % 16 * 4 + bytes[2] as int / 64),
            base64_symbol(bytes[2] as int % 64),
        ] + base64_encoding(bytes.skip(3))
    }
}

/// What the decoder says of a text that is no padded standard base64.
pub uninterp spec fn base64_error_text(text: Seq<char>) -> Seq<char>;

/// The bytes whose base64 text is `text`, or the decoder's complaint.
pub open spec fn base64_decoding(text: Seq<char>) -> Result<Seq<u8>, Seq<char>> {
    if exists|bytes: Seq<u8>| base64_encoding(bytes) == text {
        Ok(choose|bytes: Seq<u8>| base64_encoding(bytes) == text)
    } else {
        Err(base64_error_text(text))
    }
}

/// Calls `base64::Engine::encode` of the `STANDARD` engine, which writes its
/// input in the standard alphabet, padded with `=` to a multiple of four.
#[verifier::external_body]
pub(crate) fn base64_encode(bytes: &[u8]) -> (r: String)
    ensures
        r@ == base64_encoding(bytes@),
{
    base64::engine::general_purpose::STANDARD.encode(bytes)
}

/// Calls `base64::Engine::decode` of the `STANDARD` engine. That engine demands
/// canonical padding and refuses stray trailing bits, so it accepts exactly the
/// texts that encoding writes and gives back the bytes they were written from.
/// Which complaint comes with a refused text depends on the text alone.
#[verifier::external_body]
fn base64_engine_decode(text: &str) -> (r: Result<Vec<u8>, String>)
    ensures
        r matches Ok(bytes) ==> base64_encoding(bytes@) == text@,
        r is Err ==> forall|bytes: Seq<u8>| base64_encoding(bytes) != text@,
        r matches Err(complaint) ==> complaint@ == base64_error_text(text@),
{
    base64::engine::general_purpose::STANDARD.decode(text).map_err(|err| err.to_string())
}

/// Decodes padded standard base64.
pub fn base64_decode(text: &str) -> (r: Result<Vec<u8>, String>)
    ensures
        r matches Ok(bytes) ==> base64_decoding(text@) == Ok::<Seq<u8>, Seq<char>>(bytes@),
        r matches Err(complaint) ==> base64_decoding(text@) == Err::<Seq<u8>, Seq<char>>(
            complaint@,
        ),
{
    let r = base64_engine_decode(text);
    proof {
        if r is Ok {
            law_base64_round_trip(r->Ok_0@);
        }
    }
    r
}

proof fn lemma_symbol_injective(m: int, n: int)
    requires
        0 <= m < 64,
        0 <= n < 64,
        base64_symbol(m) == base64_symbol(n),
    ensures
        m == n,
{
}

proof fn lemma_symbol_not_padding(n: int)
    requires
        0 <= n < 64,
    ensures
        base64_symbol(n) != '=',
{
}

/// Different bytes have different base64 texts.
pub proof fn law_base64_injective(x: Seq<u8>, y: Seq<u8>)
    requires
        base64_encoding(x) == base64_encoding(y),
    ensures
        x == y,
    decreases x.len(),
{
    let e = base64_encoding(x);
    let f = base64_encoding(y);
    if x.len() == 0 {
        assert(e.len() == 0);
        assert(y.len() == 0);
        assert(x =~= y);
    } else {
        assert(e.len() > 0);
        assert(y.len() > 0);
        assert(e[0] == f[0] && e[1] == f[1] && e[2] == f[2] && e[3] == f[3]);
        let a = x[0] as int;
        let p = y[0] as int;
        lemma_symbol_injective(a / 4, p / 4);
        if x.len() == 1 || y.len() == 1 {
            if x.len() >= 2 {
                let b = x[1] as int;
                if x.len() == 2 {
                    lemma_symbol_not_padding(b % 16 * 4);
                } else {
                    lemma_symbol_not_padding(b % 16 * 4 + x[2] as int / 64);
                }
            }
            if y.len() >= 2 {
                let q = y[1] as int;
                if y.len() == 2 {
                    lemma_symbol_not_padding(q % 16 * 4);
                } else {
                    lemma_symbol_not_padding(q % 16 * 4 + y[2] as int / 64);
                }
            }
            assert(x.len() == 1 && y.len() == 1);
            lemma_symbol_injective(a % 4 * 16, p % 4 * 16);
            assert(a == p);
            assert(x =~= y);
        } else {
            let b = x[1] as int;
            let q = y[1] as int;
            lemma_symbol_injective(a % 4 * 16 + b / 16, p % 4 * 16 + q / 16);
            assert(a == p);
            assert(b / 16 == q / 16);
            if x.len() == 2 || y.len() == 2 {
                if x.len() > 2 {
                    lemma_symbol_not_padding(x[2] as int % 64);
                }
                if y.len() > 2 {
                    lemma_symbol_not_padding(y[2] as int % 64);
                }
                lemma_symbol_injective(b % 16 * 4, q % 16 * 4);
                assert(b == q);
                assert(x =~= y);
            } else {
                let c = x[2] as int;
                let r = y[2] as int;
                lemma_symbol_injective(b % 16 * 4 + c / 64, q % 16 * 4 + r / 64);
                lemma_symbol_injective(c % 64, r % 64);
                assert(b == q);
                assert(c == r);
                assert(e.skip(4) =~= base64_encoding(x.skip(3)));
                assert(f.skip(4) =~= base64_encoding(y.skip(3)));
                law_base64_injective(x.skip(3), y.skip(3));
                assert forall|i: int| 0 <= i < x.len() implies x[i] == y[i] by {
                    if i >= 3 {
                        assert(x[i] == x.skip(3)[i - 3]);
                        assert(y[i] == y.skip(3)[i - 3]);
                    }
                }
                assert(x.len() == y.len()) by {
                    assert(x.skip(3).len() == y.skip(3).len());
                }
                assert(x =~= y);
            }
        }
    }
}

/// Decoding the text that encoding wrote gives the bytes back.
pub proof fn law_base64_round_trip(bytes: Seq<u8>)
    ensures
        base64_decoding(base64_encoding(bytes)) == Ok::<Seq<u8>, Seq<char>>(bytes),
{
    let text = base64_encoding(bytes);
    let found = choose|b: Seq<u8>| base64_encoding(b) == text;
    law_base64_injective(found, bytes);
}

/// A base64 text takes four symbols for every three bytes begun.
pub proof fn law_base64_length(bytes: Seq<u8>)
    ensures
        base64_encoding(bytes).len() == (bytes.len() + 2) / 3 * 4,
    decreases bytes.len(),
{
    if bytes.len() > 2 {
        law_base64_length(bytes.skip(3));
    }
}

/// A text is decoded exactly if it is the base64 text of some bytes, and then to those
/// bytes.
pub proof fn law_base64_decode(text: &str, bytes: Seq<u8>, r: Result<Vec<u8>, String>)
    requires
        call_ensures(base64_decode, (text,), r),
    ensures
        r matches Ok(decoded) ==> base64_encoding(decoded@) == text@,
        base64_encoding(bytes) == text@ ==> r is Ok && r->Ok_0@ == bytes,
{
    if base64_encoding(bytes) == text@ {
        law_base64_round_trip(bytes);
    }
}

} // verus!
