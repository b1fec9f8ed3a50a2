//! Cache keys for downloaded pages: the hex digest of the request, as
//! the on-disk cache names its entries. The fetching itself is I/O and
//! lives outside the library.

use vstd::prelude::*;

verus! {

/// The SHA-256 digest of a byte string: a function of the bytes alone,
/// named but not restated here.
pub uninterp spec fn sha256_of(data: Seq<u8>) -> Seq<u8>;

/// The lowercase hex digit of a value below sixteen.
pub open spec fn hex_digit_s(n: int) -> char {
    if n == 0 {
        '0'
    } else if n == 1 {
        '1'
    } else if n == 2 {
        '2'
    } else if n == 3 {
        '3'
    } else if n == 4 {
        '4'
    } else if n == 5 {
        '5'
    } else if n == 6 {
        '6'
    } else if n == 7 {
        '7'
    } else if n == 8 {
        '8'
    } else if n == 9 {
        '9'
    } else if n == 10 {
        'a'
    } else if n == 11 {
        'b'
    } else if n == 12 {
        'c'
    } else if n == 13 {
        'd'
    } else if n == 14 {
        'e'
    } else {
        'f'
    }
}

/// Lowercase hex encoding: two digits per byte, high nibble first.
pub open spec fn hex_of(b: Seq<u8>) -> Seq<char> {
    Seq::new(
        2 * b.len(),
        |i: int|
            if i % 2 == 0 {
                hex_digit_s(b[i / 2] as int / 16)
            } else {
                hex_digit_s(b[i / 2] as int % 16)
            },
    )
}

/// Relies on sha2's Sha256: the 32-byte digest of the data, a function
/// of the bytes alone.
#[verifier::external_body]
fn sha256(data: &Vec<u8>) -> (r: Vec<u8>)
    ensures
        r@ == sha256_of(data@),
        r@.len() == 32,
{
    <sha2::Sha256 as sha2::Digest>::digest(data.as_slice()).to_vec()
}

/// Relies on hex::encode: lowercase hex, two digits per byte, high
/// nibble first.
#[verifier::external_body]
fn hex_encode(b: &Vec<u8>) -> (r: String)
    ensures
        r@ == hex_of(b@),
{
    hex::encode(b.as_slice())
}

/// The two byte strings, one after the other.
pub fn concat_bytes(a: &Vec<u8>, b: &Vec<u8>) -> (r: Vec<u8>)
    ensures
        r@ == a@ + b@,
{
    let mut out: Vec<u8> = Vec::new();
    let mut i: usize = 0;
    while i < a.len()
        invariant
            i <= a.len(),
            out@ == a@.subrange(0, i as int),
        decreases a.len() - i,
    {
        out.push(a[i]);
        i = i + 1;
        assert(out@ =~= a@.subrange(0, i as int));
    }
    assert(out@ =~= a@);
    let mut j: usize = 0;
    while j < b.len()
        invariant
            j <= b.len(),
            out@ == a@ + b@.subrange(0, j as int),
        decreases b.len() - j,
    {
        out.push(b[j]);
        j = j + 1;
        assert(out@ =~= a@ + b@.subrange(0, j as int));
    }
    assert(out@ =~= a@ + b@);
    out
}

/// The cache entry name of a plain request: the hex digest of its URL.
pub fn cache_key(url: &Vec<u8>) -> (r: String)
    ensures
        r@ == hex_of(sha256_of(url@)),
        r@.len() == 64,
{
    let digest = sha256(url);
    hex_encode(&digest)
}

/// The cache entry name of a form request: the hex digest of the URL,
/// the view name and the parameter text, concatenated.
pub fn cache_key_with_params(url: &Vec<u8>, view: &Vec<u8>, params: &Vec<u8>) -> (r: String)
    ensures
        r@ == hex_of(sha256_of(url@ + view@ + params@)),
        r@.len() == 64,
{
    let uv = concat_bytes(url, view);
    let all = concat_bytes(&uv, params);
    assert(all@ =~= url@ + view@ + params@);
    let digest = sha256(&all);
    hex_encode(&digest)
}

} // verus!
