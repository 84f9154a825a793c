//! Public-key text encodings: the raw 64-digit hexadecimal form, written and
//! parsed by verified code, and the prefixed (bech32) form, obtained from the
//! underlying Nostr library through trusted wrappers.

use vstd::prelude::*;
use nostr_sdk::prelude::FromBech32;
use nostr_sdk::prelude::ToBech32;

use crate::errors::Error;
use crate::text::chars_to_string;
use crate::text::str_to_chars;

verus! {

// ---------------------------------------------------------------------------
// Hexadecimal encoding, fully specified.
// ---------------------------------------------------------------------------
/// True for the characters the hexadecimal key form may contain.
pub open spec fn is_hex_digit(c: char) -> bool {
    ('0' <= c && c <= '9') || ('a' <= c && c <= 'f') || ('A' <= c && c <= 'F')
}

/// The numeric value of a hexadecimal digit.
pub open spec fn hex_val(c: char) -> u8
    recommends
        is_hex_digit(c),
{
    if '0' <= c && c <= '9' {
        (c as u32 - '0' as u32) as u8
    } else if 'a' <= c && c <= 'f' {
        (c as u32 - 'a' as u32 + 10) as u8
    } else {
        (c as u32 - 'A' as u32 + 10) as u8
    }
}

/// The lower-case digit for a value below sixteen.
pub open spec fn hex_char(n: u8) -> char
    recommends
        n < 16,
{
    if n == 0 {
        '0'
    } else if n == 1 {
        '1'
    } else if n == 2 {
        '2'
    } else if n == 3 {
        '3'
    } else if n == 4 {
        '4'
    } else if n == 5 {
        '5'
    } else if n == 6 {
        '6'
    } else if n == 7 {
        '7'
    } else if n == 8 {
        '8'
    } else if n == 9 {
        '9'
    } else if n == 10 {
        'a'
    } else if n == 11 {
        'b'
    } else if n == 12 {
        'c'
    } else if n == 13 {
        'd'
    } else if n == 14 {
        'e'
    } else {
        'f'
    }
}

/// The lower-case hexadecimal rendering of a byte sequence: two digits per
/// byte, high nibble first.
pub open spec fn hex_of(b: Seq<u8>) -> Seq<char> {
    Seq::new(
        2 * b.len(),
        |i: int|
            if i % 2 == 0 {
                hex_char(b[i / 2] / 16)
            } else {
                hex_char(b[i / 2] % 16)
            },
    )
}

/// True when every character of `s` is a hexadecimal digit.
pub open spec fn is_hex_seq(s: Seq<char>) -> bool {
    forall|i: int| 0 <= i < s.len() ==> is_hex_digit(s[i])
}

/// The byte at position `j` of the decoding of `s`.
pub open spec fn hex_byte(s: Seq<char>, j: int) -> u8
    recommends
        0 <= j,
        2 * j + 1 < s.len(),
{
    (hex_val(s[2 * j]) * 16 + hex_val(s[2 * j + 1])) as u8
}

/// The decoding of a hexadecimal text: the bytes, if the text has even
/// length and holds digits only (upper or lower case); nothing otherwise.
pub open spec fn hex_decode(s: Seq<char>) -> Option<Seq<u8>> {
    if s.len() % 2 == 0 && is_hex_seq(s) {
        Some(Seq::new(s.len() / 2, |j: int| hex_byte(s, j)))
    } else {
        None
    }
}

/// Encoding a value below sixteen gives a digit that decodes back to it.
proof fn lemma_hex_digit(n: u8)
    requires
        n < 16,
    ensures
        is_hex_digit(hex_char(n)),
        hex_val(hex_char(n)) == n,
{
}

/// Hexadecimal decoding inverts hexadecimal encoding.
pub proof fn lemma_hex_round_trip(b: Seq<u8>)
    ensures
        hex_decode(hex_of(b)) == Some(b),
{
    let s = hex_of(b);
    assert forall|i: int| 0 <= i < s.len() implies is_hex_digit(s[i]) by {
        if i % 2 == 0 {
            lemma_hex_digit(b[i / 2] / 16);
        } else {
            lemma_hex_digit(b[i / 2] % 16);
        }
    }
    assert(s.len() % 2 == 0);
    let d = Seq::new(s.len() / 2, |j: int| hex_byte(s, j));
    assert forall|j: int| 0 <= j < b.len() implies d[j] == b[j] by {
        lemma_hex_digit(b[j] / 16);
        lemma_hex_digit(b[j] % 16);
        assert(s[2 * j] == hex_char(b[j] / 16));
        assert(s[2 * j + 1] == hex_char(b[j] % 16));
        assert(hex_val(s[2 * j]) * 16 + hex_val(s[2 * j + 1]) == b[j]) by {
            assert((b[j] / 16) * 16 + b[j] % 16 == b[j]) by (nonlinear_arith);
        }
    }
    assert(d =~= b);
}

/// The numeric value of a digit character, or nothing.
fn hex_digit_value(c: char) -> (r: Option<u8>)
    ensures
        match r {
            Some(n) => is_hex_digit(c) && n == hex_val(c) && n < 16,
            None => !is_hex_digit(c),
        },
{
    if '0' <= c && c <= '9' {
        Some((c as u32 - '0' as u32) as u8)
    } else if 'a' <= c && c <= 'f' {
        Some((c as u32 - 'a' as u32 + 10) as u8)
    } else if 'A' <= c && c <= 'F' {
        Some((c as u32 - 'A' as u32 + 10) as u8)
    } else {
        None
    }
}

/// The digit character for a value below sixteen.
fn hex_char_of(n: u8) -> (r: char)
    requires
        n < 16,
    ensures
        r == hex_char(n),
{
    match n {
        0 => '0',
        1 => '1',
        2 => '2',
        3 => '3',
        4 => '4',
        5 => '5',
        6 => '6',
        7 => '7',
        8 => '8',
        9 => '9',
        10 => 'a',
        11 => 'b',
        12 => 'c',
        13 => 'd',
        14 => 'e',
        _ => 'f',
    }
}

/// Renders bytes as lower-case hexadecimal characters.
pub fn hex_chars_of_bytes(b: &Vec<u8>) -> (r: Vec<char>)
    ensures
        r@ == hex_of(b@),
{
    let n = b.len();
    let mut r: Vec<char> = Vec::new();
    let mut i: usize = 0;
    while i < n
        invariant
            i <= n,
            n == b@.len(),
            r@ =~= hex_of(b@).subrange(0, 2 * i as int),
        decreases n - i,
    {
        let hi = b[i] / 16;
        let lo = b[i] % 16;
        r.push(hex_char_of(hi));
        r.push(hex_char_of(lo));
        proof {
            assert(r@ =~= hex_of(b@).subrange(0, 2 * (i + 1) as int));
        }
        i = i + 1;
    }
    proof {
        assert(r@ =~= hex_of(b@));
    }
    r
}

/// Decodes hexadecimal characters into bytes; fails exactly where
/// `hex_decode` gives nothing.
pub fn bytes_from_hex_chars(v: &Vec<char>) -> (r: Option<Vec<u8>>)
    ensures
        match r {
            Some(b) => hex_decode(v@) == Some(b@),
            None => hex_decode(v@) is None,
        },
{
    let n = v.len();
    if n % 2 != 0 {
        return None;
    }
    let mut out: Vec<u8> = Vec::new();
    let mut i: usize = 0;
    while i < n
        invariant
            n == v@.len(),
            n % 2 == 0,
            i % 2 == 0,
            i <= n,
            out@.len() == i / 2,
            forall|k: int|
                0 <= k < i / 2 ==> is_hex_digit(#[trigger] v@[2 * k]) && is_hex_digit(
                    v@[2 * k + 1],
                ),
            forall|k: int| 0 <= k < i / 2 ==> #[trigger] out@[k] == hex_byte(v@, k),
        decreases n - i,
    {
        let hi = match hex_digit_value(v[i]) {
            Some(x) => x,
            None => {
                return None;
            },
        };
        let lo = match hex_digit_value(v[i + 1]) {
            Some(x) => x,
            None => {
                return None;
            },
        };
        out.push(hi * 16 + lo);
        proof {
            let k = i as int / 2;
            assert(2 * k == i as int);
            assert(out@[k] == hex_byte(v@, k));
        }
        i = i + 2;
    }
    proof {
        assert forall|ix: int| 0 <= ix < v@.len() implies is_hex_digit(v@[ix]) by {
            let k = ix / 2;
            assert(0 <= k < n as int / 2);
            assert(is_hex_digit(v@[2 * k]) && is_hex_digit(v@[2 * k + 1]));
            assert(ix == 2 * k || ix == 2 * k + 1);
        }
        assert(out@ =~= Seq::new(v@.len() / 2, |k: int| hex_byte(v@, k)));
    }
    Some(out)
}

// ---------------------------------------------------------------------------
// The key type and its two textual forms.
// ---------------------------------------------------------------------------
/// True of the 32-byte sequences that are the x coordinate of a point on the
/// secp256k1 curve; only the underlying cryptographic library can decide it.
pub uninterp spec fn is_curve_point(b: Seq<u8>) -> bool;

/// What the prefixed (bech32, `npub`) decoding of a text yields: the 32 key
/// bytes, or nothing. Decided by the underlying Nostr library.
pub uninterp spec fn npub_decoded(s: Seq<char>) -> Option<Seq<u8>>;

/// The prefixed (bech32, `npub`) rendering of 32 key bytes, as the underlying
/// Nostr library writes it.
pub uninterp spec fn npub_of(b: Seq<u8>) -> Seq<char>;

/// A public key: 32 bytes forming a valid curve point.
#[derive(Debug)]
pub struct Pubkey {
    pub bytes: Vec<u8>,
}

impl View for Pubkey {
    type V = Seq<u8>;

    open spec fn view(&self) -> Seq<u8> {
        self.bytes@
    }
}

impl Clone for Pubkey {
    fn clone(&self) -> (r: Self)
        ensures
            r@ == self@,
    {
        Pubkey { bytes: clone_bytes(&self.bytes) }
    }
}

impl PartialEq for Pubkey {
    fn eq(&self, other: &Self) -> (r: bool) {
        bytes_eq(&self.bytes, &other.bytes)
    }
}

impl vstd::std_specs::cmp::PartialEqSpecImpl for Pubkey {
    open spec fn obeys_eq_spec() -> bool {
        true
    }

    open spec fn eq_spec(&self, other: &Self) -> bool {
        self@ == other@
    }
}

/// True when the two vectors hold the same bytes.
pub fn bytes_eq(a: &Vec<u8>, b: &Vec<u8>) -> (r: bool)
    ensures
        r == (a@ == b@),
{
    if a.len() != b.len() {
        proof {
            assert(a@.len() != b@.len());
        }
        return false;
    }
    let n = a.len();
    let mut i: usize = 0;
    while i < n
        invariant
            i <= n,
            n == a@.len(),
            a@.len() == b@.len(),
            forall|j: int| 0 <= j < i ==> a@[j] == b@[j],
        decreases n - i,
    {
        if a[i] != b[i] {
            return false;
        }
        i = i + 1;
    }
    proof {
        assert(a@ =~= b@);
    }
    true
}

/// A copy of the byte vector.
pub fn clone_bytes(a: &Vec<u8>) -> (r: Vec<u8>)
    ensures
        r@ == a@,
{
    let n = a.len();
    let mut r: Vec<u8> = Vec::new();
    let mut i: usize = 0;
    while i < n
        invariant
            i <= n,
            n == a@.len(),
            r@ == a@.subrange(0, i as int),
        decreases n - i,
    {
        r.push(a[i]);
        proof {
            assert(r@ =~= a@.subrange(0, i + 1 as int));
        }
        i = i + 1;
    }
    proof {
        assert(r@ =~= a@);
    }
    r
}

impl Pubkey {
    /// A well-formed key: 32 bytes on the curve.
    pub open spec fn wf(&self) -> bool {
        self@.len() == 32 && is_curve_point(self@)
    }

    /// The lower-case hexadecimal form of the key.
    pub fn to_hex(&self) -> (r: String)
        ensures
            r@ == hex_of(self@),
    {
        let chars = hex_chars_of_bytes(&self.bytes);
        chars_to_string(&chars)
    }

    /// The prefixed (bech32, `npub`) form of the key.
    pub fn to_npub(&self) -> (r: String)
        requires
            self.wf(),
        ensures
            r@ == npub_of(self@),
    {
        npub_encode(self)
    }
}

/// Relies on `nostr_sdk::prelude::PublicKey::from_slice`: it accepts exactly
/// the 32-byte sequences that encode a point on the secp256k1 curve.
#[verifier::external_body]
pub(crate) fn point_check(b: &Vec<u8>) -> (r: bool)
    ensures
        r == (b@.len() == 32 && is_curve_point(b@)),
{
    nostr_sdk::prelude::PublicKey::from_slice(b.as_slice()).is_ok()
}

/// Relies on `nostr_sdk::prelude::PublicKey::from_bech32`: it decodes a
/// bech32 text carrying the prefix `npub` into 32 bytes that it validates as
/// a curve point.
#[verifier::external_body]
fn npub_decode(s: &str) -> (r: Option<Pubkey>)
    ensures
        match r {
            Some(p) => npub_decoded(s@) == Some(p@) && p@.len() == 32 && is_curve_point(p@),
            None => npub_decoded(s@) is None,
        },
{
    match nostr_sdk::prelude::PublicKey::from_bech32(s) {
        Ok(p) => Some(Pubkey { bytes: p.to_bytes().to_vec() }),
        Err(_) => None,
    }
}

/// Relies on `nostr_sdk::prelude::PublicKey::to_bech32`: it renders the 32
/// key bytes in bech32 with the prefix `npub`, and bech32 decoding inverts
/// bech32 encoding, so `from_bech32` maps the rendering back to the same
/// bytes.
#[verifier::external_body]
fn npub_encode(p: &Pubkey) -> (r: String)
    requires
        p@.len() == 32,
        is_curve_point(p@),
    ensures
        r@ == npub_of(p@),
        npub_decoded(r@) == Some(p@),
{
    match nostr_sdk::prelude::PublicKey::from_slice(p.bytes.as_slice()) {
        Ok(k) => k.to_bech32().unwrap_or_default(),
        Err(_) => String::new(),
    }
}

/// What `decode` yields: the prefixed form is tried first; on failure the
/// text is read as 64 hexadecimal digits, which must form a curve point.
pub open spec fn decode_spec(s: Seq<char>) -> Option<Seq<u8>> {
    match npub_decoded(s) {
        Some(b) => Some(b),
        None => match hex_decode(s) {
            Some(b) => if b.len() == 32 && is_curve_point(b) {
                Some(b)
            } else {
                None
            },
            None => None,
        },
    }
}

/// Reads a public key from either textual form: the prefixed form first, the
/// raw hexadecimal form second; any other text is an invalid key.
pub fn decode(s: &str) -> (r: Result<Pubkey, Error>)
    ensures
        match r {
            Ok(p) => decode_spec(s@) == Some(p@) && p.wf(),
            Err(e) => decode_spec(s@) is None && e == Error::InvalidKey,
        },
{
    match npub_decode(s) {
        Some(p) => Ok(p),
        None => {
            let chars = str_to_chars(s);
            match bytes_from_hex_chars(&chars) {
                Some(b) => {
                    if b.len() == 32 && point_check(&b) {
                        Ok(Pubkey { bytes: b })
                    } else {
                        Err(Error::InvalidKey)
                    }
                },
                None => Err(Error::InvalidKey),
            }
        },
    }
}

/// What `encode_both_forms` yields: for a text in the prefixed form, that
/// text and the derived hexadecimal form; for a text in the hexadecimal form,
/// the derived prefixed form and that text; nothing otherwise.
pub open spec fn encode_both_spec(s: Seq<char>) -> Option<(Seq<char>, Seq<char>)> {
    match npub_decoded(s) {
        Some(b) => Some((s, hex_of(b))),
        None => match hex_decode(s) {
            Some(b) => if b.len() == 32 && is_curve_point(b) {
                Some((npub_of(b), s))
            } else {
                None
            },
            None => None,
        },
    }
}

/// Reads a key in either textual form and returns the pair of both forms,
/// prefixed first, hexadecimal second; re-deriving only the form that was
/// not given. Both returned forms stand for one key: the prefixed form
/// decodes to it, and the hexadecimal form reads back as its bytes.
pub fn encode_both_forms(s: &str) -> (r: Result<(String, String), Error>)
    ensures
        match r {
            Ok(pair) => encode_both_spec(s@) == Some((pair.0@, pair.1@)) && hex_decode(
                pair.1@,
            ) is Some && decode_spec(pair.0@) == hex_decode(pair.1@),
            Err(e) => encode_both_spec(s@) is None && e == Error::InvalidKey,
        },
{
    match npub_decode(s) {
        Some(p) => {
            let hex = p.to_hex();
            proof {
                lemma_hex_round_trip(p@);
            }
            Ok((s.to_owned(), hex))
        },
        None => {
            let chars = str_to_chars(s);
            match bytes_from_hex_chars(&chars) {
                Some(b) => {
                    if b.len() == 32 && point_check(&b) {
                        let p = Pubkey { bytes: b };
                        let npub = npub_encode(&p);
                        Ok((npub, s.to_owned()))
                    } else {
                        Err(Error::InvalidKey)
                    }
                },
                None => Err(Error::InvalidKey),
            }
        },
    }
}

/// Converts a batch of keys: for each input both textual forms, or nothing
/// where the input is no valid key; the batch result is success exactly when
/// every input converted.
pub fn convert_keys(keys: &Vec<String>) -> (r: (Vec<Option<(String, String)>>, Result<(), Error>))
    ensures
        r.0@.len() == keys@.len(),
        forall|i: int|
            0 <= i < keys@.len() ==> match #[trigger] r.0@[i] {
                Some(p) => encode_both_spec(keys@[i]@) == Some((p.0@, p.1@)),
                None => encode_both_spec(keys@[i]@) is None,
            },
        (r.1 matches Ok(_)) <==> (forall|i: int|
            0 <= i < keys@.len() ==> (#[trigger] encode_both_spec(keys@[i]@)) is Some),
        r.1 matches Err(e) ==> e == Error::ConversionFailed,
{
    let n = keys.len();
    let mut out: Vec<Option<(String, String)>> = Vec::new();
    let mut errs: usize = 0;
    let mut i: usize = 0;
    while i < n
        invariant
            i <= n,
            n == keys@.len(),
            out@.len() == i,
            errs <= i,
            forall|j: int|
                0 <= j < i ==> match #[trigger] out@[j] {
                    Some(p) => encode_both_spec(keys@[j]@) == Some((p.0@, p.1@)),
                    None => encode_both_spec(keys@[j]@) is None,
                },
            (errs == 0) <==> (forall|j: int|
                0 <= j < i ==> (#[trigger] encode_both_spec(keys@[j]@)) is Some),
        decreases n - i,
    {
        match encode_both_forms(keys[i].as_str()) {
            Ok(pair) => {
                out.push(Some(pair));
            },
            Err(_) => {
                out.push(None);
                errs = errs + 1;
            },
        }
        i = i + 1;
    }
    if errs == 0 {
        (out, Ok(()))
    } else {
        (out, Err(Error::ConversionFailed))
    }
}

/// For every text `k` that decodes as a prefixed-form key with bytes `b`,
/// converting gives back `k` itself beside the hexadecimal form, the
/// hexadecimal form re-reads to the same bytes, and decoding `k` again gives
/// the same key.
pub proof fn lemma_key_round_trip(k: Seq<char>, b: Seq<u8>)
    requires
        npub_decoded(k) == Some(b),
        b.len() == 32,
        is_curve_point(b),
    ensures
        decode_spec(k) == Some(b),
        encode_both_spec(k) == Some((k, hex_of(b))),
        hex_decode(hex_of(b)) == Some(b),
{
    lemma_hex_round_trip(b);
}

} // verus!
