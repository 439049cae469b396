use rand::Rng;
use rand::RngCore;
use rand::SeedableRng;
use base64::Engine;
use vstd::prelude::*;

verus! {

/// How many fruits the page header picks from.
pub const FRUIT_COUNT: usize = 13;

/// How many random bytes a nonce is drawn from.
pub const NONCE_BYTES: usize = 16;

/// What the Content-Security-Policy value holds before the nonce.
pub const CSP_HEAD: &'static str = "default-src 'none'; style-src 'self' 'nonce-";

/// What the Content-Security-Policy value holds after the nonce.
pub const CSP_TAIL: &'static str =
    "'; img-src 'self'; base-uri 'self'; form-action 'self'; frame-ancestors *; sandbox allow-same-origin allow-forms;";

/// The fruit at position `i` of the header's list.
pub open spec fn fruit_of(i: usize) -> char {
    match i {
        0 => '\u{1F34A}',
        1 => '\u{1F34B}',
        2 => '\u{1F34C}',
        3 => '\u{1F34D}',
        4 => '\u{1F96D}',
        5 => '\u{1F34E}',
        6 => '\u{1F34F}',
        7 => '\u{1F350}',
        8 => '\u{1F351}',
        9 => '\u{1F352}',
        10 => '\u{1F353}',
        11 => '\u{1F95D}',
        _ => '\u{1F33D}',
    }
}

/// `c` is one of the header's fruits.
pub open spec fn is_fruit(c: char) -> bool {
    exists|i: usize| i < FRUIT_COUNT && #[trigger] fruit_of(i) == c
}

/// The character of the standard base64 alphabet (`A-Z`, `a-z`, `0-9`, `+`, `/`)
/// for a six-bit value.
pub open spec fn base64_digit(v: int) -> char {
    if v < 26 {
        (65 + v) as char
    } else if v < 52 {
        (97 + (v - 26)) as char
    } else if v < 62 {
        (48 + (v - 52)) as char
    } else if v == 62 {
        '+'
    } else {
        '/'
    }
}

/// Standard base64 with padding: each group of three bytes becomes four
/// characters; a final group of one or two bytes is filled up with `=`.
pub open spec fn base64_standard_of(b: Seq<u8>) -> Seq<char>
    decreases b.len(),
{
    if b.len() == 0 {
        Seq::empty()
    } else if b.len() == 1 {
        seq![base64_digit((b[0] as int) / 4), base64_digit(((b[0] as int) % 4) * 16), '=', '=']
    } else if b.len() == 2 {
        seq![
            base64_digit((b[0] as int) / 4),
            base64_digit(((b[0] as int) % 4) * 16 + (b[1] as int) / 16),
            base64_digit(((b[1] as int) % 16) * 4),
            '=',
        ]
    } else {
        seq![
            base64_digit((b[0] as int) / 4),
            base64_digit(((b[0] as int) % 4) * 16 + (b[1] as int) / 16),
            base64_digit(((b[1] as int) % 16) * 4 + (b[2] as int) / 64),
            base64_digit((b[2] as int) % 64),
        ] + base64_standard_of(b.subrange(3, b.len() as int))
    }
}

/// The encoding has four characters for each started group of three bytes,
/// and where one byte is left over it ends in `==`.
pub proof fn lemma_base64_shape(b: Seq<u8>)
    ensures
        base64_standard_of(b).len() == 4 * ((b.len() + 2) / 3),
        b.len() % 3 == 1 ==> {
            let e = base64_standard_of(b);
            e[e.len() - 2] == '=' && e[e.len() - 1] == '='
        },
    decreases b.len(),
{
    if b.len() >= 3 {
        lemma_base64_shape(b.subrange(3, b.len() as int));
    }
}

/// Relies on `StdRng::from_rng(OsRng)`, which reports a failing operating
/// system source as an error, and on `Rng::gen_range`, which for a non-empty
/// range `0..n` returns a number below `n`.
#[verifier::external_body]
fn random_below(n: usize) -> (r: Option<usize>)
    requires
        n > 0,
    ensures
        r matches Some(k) ==> k < n,
{
    match rand::rngs::StdRng::from_rng(rand::rngs::OsRng) {
        Ok(mut g) => Some(g.gen_range(0..n)),
        Err(_) => None,
    }
}

/// Relies on `rand::rngs::OsRng` and `RngCore::try_fill_bytes`, which fills
/// the whole buffer from the operating system or reports an error.
#[verifier::external_body]
fn os_random_bytes(len: usize) -> (r: Option<Vec<u8>>)
    ensures
        r matches Some(b) ==> b@.len() == len,
{
    let mut b = vec![0u8; len];
    match rand::rngs::OsRng.try_fill_bytes(&mut b) {
        Ok(()) => Some(b),
        Err(_) => None,
    }
}

/// Relies on `base64::engine::general_purpose::STANDARD` and `Engine::encode`:
/// standard alphabet, with padding. It panics only where the encoded length
/// overflows `usize`.
#[verifier::external_body]
fn encode_base64(b: &Vec<u8>) -> (r: String)
    requires
        b@.len() <= usize::MAX / 2,
    ensures
        r@ == base64_standard_of(b@),
{
    base64::engine::general_purpose::STANDARD.encode(b.as_slice())
}

/// Relies on `String::push_str`, which appends `string` to the end of `s`.
pub assume_specification[ String::push_str ](s: &mut String, string: &str)
    ensures
        final(s)@ == old(s)@ + string@,
;

/// The fruit at position `i` of the header's list.
pub fn fruit_at(i: usize) -> (r: char)
    requires
        i < FRUIT_COUNT,
    ensures
        r == fruit_of(i),
{
    match i {
        0 => '\u{1F34A}',
        1 => '\u{1F34B}',
        2 => '\u{1F34C}',
        3 => '\u{1F34D}',
        4 => '\u{1F96D}',
        5 => '\u{1F34E}',
        6 => '\u{1F34F}',
        7 => '\u{1F350}',
        8 => '\u{1F351}',
        9 => '\u{1F352}',
        10 => '\u{1F353}',
        11 => '\u{1F95D}',
        _ => '\u{1F33D}',
    }
}

/// A fruit picked at random for the page header, or `None` where the
/// operating system supplied no randomness.
pub fn fruit() -> (r: Option<char>)
    ensures
        r matches Some(c) ==> is_fruit(c),
{
    match random_below(FRUIT_COUNT) {
        None => None,
        Some(i) => {
            let c = fruit_at(i);
            assert(fruit_of(i) == c);
            Some(c)
        },
    }
}

/// A fresh nonce for inline styles: `NONCE_BYTES` bytes from the operating
/// system in base64, or `None` where the system could not supply them.
pub fn nonce() -> (r: Option<String>)
    ensures
        r matches Some(s) ==> {
            &&& exists|b: Seq<u8>| b.len() == NONCE_BYTES && s@ == #[trigger] base64_standard_of(b)
            &&& s@.len() == 24
            &&& s@[22] == '=' && s@[23] == '='
        },
{
    match os_random_bytes(NONCE_BYTES) {
        None => None,
        Some(b) => {
            let s = encode_base64(&b);
            proof {
                lemma_base64_shape(b@);
            }
            assert(b@.len() == NONCE_BYTES && s@ == base64_standard_of(b@));
            Some(s)
        },
    }
}

/// The Content-Security-Policy value that admits inline styles carrying `nonce`.
pub fn csp_value(nonce: &str) -> (r: String)
    ensures
        r@ == CSP_HEAD@ + nonce@ + CSP_TAIL@,
{
    let mut r = CSP_HEAD.to_owned();
    r.push_str(nonce);
    r.push_str(CSP_TAIL);
    r
}

} // verus!
