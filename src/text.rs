//! Text handling for function names: raw name payloads, trimming and default names.
use vstd::prelude::*;
use vstd::utf8::*;

verus! {

/// The characters that `b` encodes in UTF-8, or no characters when `b` is not valid UTF-8.
pub open spec fn text_of(b: Seq<u8>) -> Seq<char> {
    if valid_utf8(b) {
        decode_utf8(b)
    } else {
        seq![]
    }
}

/// What `str::trim` leaves of a string: it drops leading and trailing Unicode white space.
pub uninterp spec fn trim_of(s: Seq<char>) -> Seq<char>;

/// Relies on `String::from_utf8`: it keeps the bytes as the string's encoding when they are
/// valid UTF-8, and fails otherwise.
#[verifier::external_body]
fn string_from_utf8(bytes: Vec<u8>) -> (r: Option<String>)
    ensures
        r is Some == valid_utf8(bytes@),
        r is Some ==> r->Some_0@ == decode_utf8(bytes@),
{
    String::from_utf8(bytes).ok()
}

/// Relies on `str::trim`, which returns the slice of `s` left after removing leading and
/// trailing white space; so every character of the result is one of `s`.
#[verifier::external_body]
pub(crate) fn trim_str(s: &str) -> (r: &str)
    ensures
        r@ == trim_of(s@),
        forall|k: int| 0 <= k < r@.len() ==> s@.contains(#[trigger] r@[k]),
{
    s.trim()
}

/// Reads a function name sent as raw bytes; bytes that are not valid UTF-8 give an empty name.
pub fn read_function_name_from_buffer(buf: &[u8]) -> (r: String)
    ensures
        r@ == text_of(buf@),
{
    let mut bytes: Vec<u8> = Vec::new();
    let mut i: usize = 0;
    while i < buf.len()
        invariant
            i <= buf@.len(),
            bytes@ =~= buf@.take(i as int),
        decreases buf@.len() - i,
    {
        bytes.push(buf[i]);
        i = i + 1;
    }
    assert(bytes@ =~= buf@);
    match string_from_utf8(bytes) {
        Some(name) => name,
        // a name that is not valid UTF-8 is read as no name
        None => String::new(),
    }
}

/// The name carried by the payload that follows a RegisterFunction frame, which announced
/// `string_len` bytes: empty when nothing was announced or when the payload has another length.
pub open spec fn payload_name(string_len: usize, payload: Seq<u8>) -> Seq<char> {
    if string_len == 0 || payload.len() != string_len {
        seq![]
    } else {
        text_of(payload)
    }
}

/// The name carried by the payload that follows a RegisterFunction frame.
pub fn function_name_from_payload(string_len: usize, payload: &[u8]) -> (r: String)
    ensures
        r@ == payload_name(string_len, payload@),
{
    if string_len == 0 || payload.len() != string_len {
        String::new()
    } else {
        read_function_name_from_buffer(payload)
    }
}

/// The decimal digit `d`.
pub open spec fn digit_char(d: nat) -> char {
    ((d + 48) as u8) as char
}

/// The decimal representation of `n`, without leading zeros.
pub open spec fn decimal(n: nat) -> Seq<char>
    decreases n,
{
    if n < 10 {
        seq![digit_char(n)]
    } else {
        decimal(n / 10).push(digit_char(n % 10))
    }
}

proof fn lemma_ascii_bytes_text(b: Seq<u8>)
    requires
        forall|i: int| 0 <= i < b.len() ==> b[i] < 128,
    ensures
        text_of(b) == Seq::new(b.len(), |i: int| b[i] as char),
{
    let c = Seq::new(b.len(), |i: int| b[i] as char);
    assert(is_ascii_chars(c));
    is_ascii_chars_encode_utf8(c);
    assert(encode_utf8(c) =~= b);
    encode_utf8_valid_utf8(c);
    encode_utf8_decode_utf8(c);
}

/// The decimal digits of `n`, as ASCII bytes.
fn decimal_bytes(n: u64) -> (r: Vec<u8>)
    ensures
        r@.len() == decimal(n as nat).len(),
        forall|i: int| 0 <= i < r@.len() ==> #[trigger] r@[i] < 128,
        forall|i: int| 0 <= i < r@.len() ==> (#[trigger] r@[i]) as char == decimal(n as nat)[i],
    decreases n,
{
    if n < 10 {
        let mut r: Vec<u8> = Vec::new();
        r.push((n as u8) + 48);
        assert(decimal(n as nat) == seq![digit_char(n as nat)]);
        assert(r@[0] == ((n as nat + 48) as u8));
        assert(r@[0] < 128);
        assert(r@[0] as char == digit_char(n as nat));
        r
    } else {
        let mut r = decimal_bytes(n / 10);
        let ghost prev = r@;
        let d: u8 = (n % 10) as u8;
        r.push(d + 48);
        assert(decimal(n as nat) == decimal((n / 10) as nat).push(digit_char((n % 10) as nat)));
        assert forall|i: int| 0 <= i < r@.len() implies #[trigger] r@[i] < 128 && r@[i] as char
            == decimal(n as nat)[i] by {
            if i < prev.len() {
                assert(r@[i] == prev[i]);
            } else {
                assert(r@[i] == ((n % 10) as nat + 48) as u8);
            }
        }
        r
    }
}

/// The decimal representation of `n`.
pub fn decimal_string(n: u64) -> (r: String)
    ensures
        r@ == decimal(n as nat),
{
    let bytes = decimal_bytes(n);
    proof {
        assert forall|i: int| 0 <= i < bytes@.len() implies bytes@[i] < 128 by {
        }
        lemma_ascii_bytes_text(bytes@);
        assert(Seq::new(bytes@.len(), |i: int| bytes@[i] as char) =~= decimal(n as nat));
    }
    match string_from_utf8(bytes) {
        Some(digits) => digits,
        None => String::new(),
    }
}

} // verus!
