//! Keys of the on-disk embedding cache.
//!
//! An embedding is stored under the lowercase hex SHA-256 digest of
//! `content_hash ':' model_key`, so that entries made with one model are
//! never found under another.
use vstd::prelude::*;
use vstd::string::*;

verus! {

/// What SHA-256 returns for a byte string.
pub uninterp spec fn sha256_of(data: Seq<u8>) -> Seq<u8>;

/// Relies on `sha2::Sha256::digest`: the 32-byte SHA-256 digest of the
/// input, a function of the bytes alone.
#[verifier::external_body]
fn sha256(data: &Vec<u8>) -> (r: Vec<u8>)
    ensures
        r@ == sha256_of(data@),
        r@.len() == 32,
{
    <sha2::Sha256 as sha2::Digest>::digest(data.as_slice()).to_vec()
}

/// The bytes that are hashed into a cache key.
pub open spec fn key_material(content_hash: Seq<u8>, model_key: Seq<u8>) -> Seq<u8> {
    content_hash + seq![58u8] + model_key
}

/// Lowercase hex digit of a value below 16.
pub open spec fn hex_digit(n: u8) -> char {
    if n < 10 { ((n as u32) + 48) as char } else { ((n as u32) + 87) as char }
}

/// Lowercase hex form of a byte string, two digits per byte, high first.
pub open spec fn hex_of(b: Seq<u8>) -> Seq<char>
    decreases b.len(),
{
    if b.len() == 0 {
        Seq::empty()
    } else {
        hex_of(b.drop_last()) + seq![hex_digit(b.last() / 16), hex_digit(b.last() % 16)]
    }
}

fn digit_str(n: u8) -> (r: &'static str)
    requires
        n < 16,
    ensures
        r@ == seq![hex_digit(n)],
{
    proof {
        reveal_strlit("0");
        reveal_strlit("1");
        reveal_strlit("2");
        reveal_strlit("3");
        reveal_strlit("4");
        reveal_strlit("5");
        reveal_strlit("6");
        reveal_strlit("7");
        reveal_strlit("8");
        reveal_strlit("9");
        reveal_strlit("a");
        reveal_strlit("b");
        reveal_strlit("c");
        reveal_strlit("d");
        reveal_strlit("e");
        reveal_strlit("f");
    }
    let r = match n {
        0 => "0",
        1 => "1",
        2 => "2",
        3 => "3",
        4 => "4",
        5 => "5",
        6 => "6",
        7 => "7",
        8 => "8",
        9 => "9",
        10 => "a",
        11 => "b",
        12 => "c",
        13 => "d",
        14 => "e",
        _ => "f",
    };
    assert(r@ =~= seq![hex_digit(n)]);
    r
}

/// Lowercase hex form of a digest.
pub fn hex_lower(b: &Vec<u8>) -> (r: String)
    ensures
        r@ == hex_of(b@),
{
    let mut r = String::new();
    let mut i: usize = 0;
    while i < b.len()
        invariant
            i <= b@.len(),
            r@ == hex_of(b@.subrange(0, i as int)),
        decreases b@.len() - i,
    {
        let x = b[i];
        r.append(digit_str(x / 16));
        r.append(digit_str(x % 16));
        proof {
            let t = b@.subrange(0, i + 1);
            assert(t.drop_last() =~= b@.subrange(0, i as int));
            assert(t.last() == x);
            assert(r@ =~= hex_of(t));
        }
        i = i + 1;
    }
    proof {
        assert(b@.subrange(0, b@.len() as int) =~= b@);
    }
    r
}

/// The bytes hashed for the cache key of `content_hash` under `model_key`.
pub fn cache_key_material(content_hash: &str, model_key: &str) -> (r: Vec<u8>)
    ensures
        r@ == key_material(content_hash.spec_bytes(), model_key.spec_bytes()),
{
    let h = content_hash.as_bytes();
    let m = model_key.as_bytes();
    let mut r: Vec<u8> = Vec::new();
    let mut i: usize = 0;
    while i < h.len()
        invariant
            i <= h@.len(),
            r@ == h@.subrange(0, i as int),
        decreases h@.len() - i,
    {
        r.push(h[i]);
        i = i + 1;
        proof {
            assert(r@ =~= h@.subrange(0, i as int));
        }
    }
    proof {
        assert(h@.subrange(0, h@.len() as int) =~= h@);
    }
    r.push(58u8);
    let ghost base = r@;
    let mut j: usize = 0;
    while j < m.len()
        invariant
            j <= m@.len(),
            r@ == base + m@.subrange(0, j as int),
        decreases m@.len() - j,
    {
        r.push(m[j]);
        j = j + 1;
        proof {
            assert(r@ =~= base + m@.subrange(0, j as int));
        }
    }
    proof {
        assert(m@.subrange(0, m@.len() as int) =~= m@);
        assert(r@ =~= key_material(h@, m@));
    }
    r
}

/// The cache key of `content_hash` under `model_key`.
pub fn cache_key(content_hash: &str, model_key: &str) -> (r: String)
    ensures
        r@ == hex_of(sha256_of(key_material(content_hash.spec_bytes(), model_key.spec_bytes()))),
{
    let material = cache_key_material(content_hash, model_key);
    let digest = sha256(&material);
    hex_lower(&digest)
}

/// Switching the model separates the cache: for one content hash, two
/// different model keys give different hashed bytes, so an entry stored
/// under one model is looked up under another only through a SHA-256
/// collision.
pub proof fn lemma_model_separates_keys(content_hash: Seq<u8>, m1: Seq<u8>, m2: Seq<u8>)
    requires
        m1 != m2,
    ensures
        key_material(content_hash, m1) != key_material(content_hash, m2),
{
    let a = key_material(content_hash, m1);
    let b = key_material(content_hash, m2);
    let n = content_hash.len() + 1;
    if a == b {
        assert(a.subrange(n as int, a.len() as int) =~= m1);
        assert(b.subrange(n as int, b.len() as int) =~= m2);
    }
}

} // verus!
