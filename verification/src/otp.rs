//! One-time-password generation: RFC 4226 dynamic truncation of an HMAC
//! digest into a fixed-width decimal code, and the TOTP time-counter wrapper.

use vstd::prelude::*;

use crate::mac;

verus! {

/// The available hash primitives for one-time passwords.
///
/// `SHA256` and `SHA512` select the SHA3 family variants, matching the
/// primitives the stored records have always been generated with.
#[derive(Debug, Clone, Copy, PartialEq, Eq, Structural)]
pub enum Algo {
    SHA1,
    SHA256,
    SHA512,
}

/// The string that names each algorithm, in both conversion directions.
pub open spec fn algo_str(algo: Algo) -> Seq<char> {
    match algo {
        Algo::SHA1 => "SHA1"@,
        Algo::SHA256 => "SHA256"@,
        Algo::SHA512 => "SHA512"@,
    }
}

/// The length of the digest each algorithm produces.
pub open spec fn digest_len_of(algo: Algo) -> nat {
    match algo {
        Algo::SHA1 => 20,
        Algo::SHA256 => 32,
        Algo::SHA512 => 64,
    }
}

/// The HMAC digest for the selected algorithm.
pub open spec fn hmac_of(algo: Algo, secret: Seq<u8>, data: Seq<u8>) -> Seq<u8> {
    match algo {
        Algo::SHA1 => mac::hmac_sha1_of(secret, data),
        Algo::SHA256 => mac::hmac_sha3_256_of(secret, data),
        Algo::SHA512 => mac::hmac_sha3_512_of(secret, data),
    }
}

impl Algo {
    /// The `Algo` named by the given string, if any: exactly the three
    /// uppercase names are accepted.
    pub fn try_from_str(v: &str) -> (r: core::result::Result<Algo, ()>)
        ensures
            r is Ok <==> (v@ == "SHA1"@ || v@ == "SHA256"@ || v@ == "SHA512"@),
            r matches Ok(a) ==> algo_str(a) == v@,
            v@ == "SHA1"@ ==> r == Ok::<Algo, ()>(Algo::SHA1),
            v@ == "SHA256"@ ==> r == Ok::<Algo, ()>(Algo::SHA256),
            v@ == "SHA512"@ ==> r == Ok::<Algo, ()>(Algo::SHA512),
    {
        proof {
            reveal_strlit("SHA1");
            reveal_strlit("SHA256");
            reveal_strlit("SHA512");
            assert("SHA1"@.len() == 4 && "SHA256"@.len() == 6 && "SHA512"@.len() == 6);
            assert("SHA256"@[3] == '2' && "SHA512"@[3] == '5');
            assert("SHA256"@ != "SHA512"@) by {
                if "SHA256"@ == "SHA512"@ {
                    assert("SHA256"@[3] == "SHA512"@[3]);
                }
            }
        }
        let owned = v.to_owned();
        if owned == "SHA1".to_owned() {
            Ok(Algo::SHA1)
        } else if owned == "SHA256".to_owned() {
            Ok(Algo::SHA256)
        } else if owned == "SHA512".to_owned() {
            Ok(Algo::SHA512)
        } else {
            Err(())
        }
    }

    /// The string representation of the algorithm.
    pub fn as_str(&self) -> (r: &'static str)
        ensures
            r@ == algo_str(*self),
    {
        match self {
            Algo::SHA1 => "SHA1",
            Algo::SHA256 => "SHA256",
            Algo::SHA512 => "SHA512",
        }
    }

    /// The owned string representation of the algorithm.
    pub fn into_string(self) -> (r: String)
        ensures
            r@ == algo_str(self),
    {
        self.as_str().to_owned()
    }
}

/// Runs the one-off HMAC of the selected algorithm.
fn one_off(algo: &Algo, secret: &[u8], data: &[u8]) -> (r: mac::Result<Vec<u8>>)
    ensures
        r is Ok,
        r matches Ok(v) ==> v@ == hmac_of(*algo, secret@, data@) && v@.len() == digest_len_of(
            *algo,
        ),
{
    match algo {
        Algo::SHA1 => mac::one_off_sha1(secret, data),
        Algo::SHA256 => mac::one_off_sha256(secret, data),
        Algo::SHA512 => mac::one_off_sha512(secret, data),
    }
}

/// Ten to the given power.
pub open spec fn pow10(n: nat) -> nat
    decreases n,
{
    if n == 0 {
        1
    } else {
        10 * pow10((n - 1) as nat)
    }
}

proof fn lemma_pow10_pos(n: nat)
    ensures
        pow10(n) >= 1,
    decreases n,
{
    if n > 0 {
        lemma_pow10_pos((n - 1) as nat);
    }
}

proof fn lemma_pow10_increases(a: nat, b: nat)
    requires
        a <= b,
    ensures
        pow10(a) <= pow10(b),
    decreases b,
{
    if a < b {
        lemma_pow10_increases(a, (b - 1) as nat);
        lemma_pow10_pos((b - 1) as nat);
    }
}

/// Ten to the given power, as a machine word; `digits <= 19` keeps it within `u64`.
fn pow_10(digits: u32) -> (r: u64)
    requires
        digits <= 19,
    ensures
        r == pow10(digits as nat),
        r >= 1,
{
    proof {
        reveal_with_fuel(pow10, 21);
        assert(pow10(19) == 10_000_000_000_000_000_000);
    }
    let mut acc: u64 = 1;
    let mut i: u32 = 0;
    while i < digits
        invariant
            i <= digits,
            digits <= 19,
            acc == pow10(i as nat),
            pow10(19) == 10_000_000_000_000_000_000,
        decreases digits - i,
    {
        proof {
            lemma_pow10_increases((i + 1) as nat, 19);
            assert(pow10((i + 1) as nat) == 10 * pow10(i as nat));
        }
        acc = acc * 10;
        i = i + 1;
    }
    proof {
        lemma_pow10_pos(digits as nat);
    }
    acc
}

/// The character for a single decimal digit.
pub open spec fn digit_char(d: nat) -> char {
    if d == 0 {
        '0'
    } else if d == 1 {
        '1'
    } else if d == 2 {
        '2'
    } else if d == 3 {
        '3'
    } else if d == 4 {
        '4'
    } else if d == 5 {
        '5'
    } else if d == 6 {
        '6'
    } else if d == 7 {
        '7'
    } else if d == 8 {
        '8'
    } else {
        '9'
    }
}

/// The decimal rendering of a number, without leading zeros (a lone zero for 0).
pub open spec fn dec_chars(n: nat) -> Seq<char>
    decreases n,
{
    if n < 10 {
        seq![digit_char(n)]
    } else {
        dec_chars(n / 10).push(digit_char(n % 10))
    }
}

fn digit_str(d: u64) -> (r: &'static str)
    requires
        d < 10,
    ensures
        r@ == seq![digit_char(d as nat)],
{
    proof {
        reveal_strlit("0");
        reveal_strlit("1");
        reveal_strlit("2");
        reveal_strlit("3");
        reveal_strlit("4");
        reveal_strlit("5");
        reveal_strlit("6");
        reveal_strlit("7");
        reveal_strlit("8");
        reveal_strlit("9");
    }
    if d == 0 {
        proof {
            assert("0"@ =~= seq![digit_char(0)]);
        }
        "0"
    } else if d == 1 {
        proof {
            assert("1"@ =~= seq![digit_char(1)]);
        }
        "1"
    } else if d == 2 {
        proof {
            assert("2"@ =~= seq![digit_char(2)]);
        }
        "2"
    } else if d == 3 {
        proof {
            assert("3"@ =~= seq![digit_char(3)]);
        }
        "3"
    } else if d == 4 {
        proof {
            assert("4"@ =~= seq![digit_char(4)]);
        }
        "4"
    } else if d == 5 {
        proof {
            assert("5"@ =~= seq![digit_char(5)]);
        }
        "5"
    } else if d == 6 {
        proof {
            assert("6"@ =~= seq![digit_char(6)]);
        }
        "6"
    } else if d == 7 {
        proof {
            assert("7"@ =~= seq![digit_char(7)]);
        }
        "7"
    } else if d == 8 {
        proof {
            assert("8"@ =~= seq![digit_char(8)]);
        }
        "8"
    } else {
        proof {
            assert("9"@ =~= seq![digit_char(9)]);
        }
        "9"
    }
}

/// Renders a number in decimal.
fn u64_to_dec_string(n: u64) -> (s: String)
    ensures
        s@ == dec_chars(n as nat),
    decreases n,
{
    if n < 10 {
        digit_str(n).to_owned()
    } else {
        let mut s = u64_to_dec_string(n / 10);
        s.append(digit_str(n % 10));
        proof {
            assert(s@ =~= dec_chars((n / 10) as nat).push(digit_char((n % 10) as nat)));
        }
        s
    }
}

/// The string, left-padded with `'0'` to the given width; a string already
/// that wide is returned unchanged, never truncated.
pub open spec fn zero_pad(s: Seq<char>, width: nat) -> Seq<char> {
    if s.len() < width {
        Seq::new((width - s.len()) as nat, |i: int| '0') + s
    } else {
        s
    }
}

/// Simple string padding given a string and a total number of digits.
///
/// This will not truncate the string: a string at least as long as the
/// requested width is returned as it is.
fn pad_string(uint_string: String, digits: usize) -> (r: String)
    ensures
        r@ == zero_pad(uint_string@, digits as nat),
{
    proof {
        reveal_strlit("0");
    }
    let len = uint_string.as_str().unicode_len();
    if len < digits {
        let mut rtn = String::new();
        let mut i: usize = 0;
        while i < digits - len
            invariant
                len < digits,
                len == uint_string@.len(),
                i <= digits - len,
                rtn@.len() == i,
                forall|j: int| 0 <= j < i ==> rtn@[j] == '0',
                "0"@ =~= seq!['0'],
            decreases digits - len - i,
        {
            rtn.append("0");
            i = i + 1;
        }
        rtn.append(uint_string.as_str());
        proof {
            assert(rtn@ =~= Seq::new((digits - len) as nat, |k: int| '0') + uint_string@);
        }
        rtn
    } else {
        uint_string
    }
}

/// The truncation offset the digest selects: the low four bits of its last byte.
pub open spec fn truncation_offset(hash: Seq<u8>) -> int {
    (hash[hash.len() - 1] & 0xf) as int
}

/// The 31-bit big-endian value read at the truncation offset.
pub open spec fn truncated_binary(hash: Seq<u8>) -> int {
    let off = truncation_offset(hash);
    (hash[off] & 0x7f) * 0x1000000 + hash[off + 1] * 0x10000 + hash[off + 2] * 0x100 + hash[off
        + 3]
}

/// The code value: the truncated binary reduced modulo ten to the digit count.
pub open spec fn truncated_value(hash: Seq<u8>, digits: nat) -> int {
    truncated_binary(hash) % (pow10(digits) as int)
}

/// The decimal code string generated for the given algorithm, secret, digit
/// count and counter bytes.
pub open spec fn code_chars(algo: Algo, secret: Seq<u8>, digits: nat, data: Seq<u8>) -> Seq<char> {
    zero_pad(dec_chars(truncated_value(hmac_of(algo, secret, data), digits) as nat), digits)
}

/// Generates the integer string for the given algorithm and counter bytes.
///
/// Creates the decimal code string: an HMAC digest, dynamic truncation per
/// RFC 4226, reduction modulo `10^digits`, and left padding with zeros up to
/// `digits` characters. The digit count is capped at 19 so that `10^digits`
/// fits a 64-bit word.
pub fn generate_integer_string(algorithm: &Algo, secret: &[u8], digits: u32, data: &[u8]) -> (r:
    String)
    requires
        digits <= 19,
    ensures
        r@ == code_chars(*algorithm, secret@, digits as nat, data@),
{
    let hash = match one_off(algorithm, secret, data) {
        Ok(h) => h,
        Err(_) => {
            return String::new();
        },
    };
    let hlen = hash.len();
    let last = hash[hlen - 1];
    let offset_byte = last & 0xf;
    proof {
        assert(last & 0xf < 16) by (bit_vector);
    }
    let offset = offset_byte as usize;
    let a = hash[offset];
    let b64 = hash[offset + 1] as u64;
    let c64 = hash[offset + 2] as u64;
    let d64 = hash[offset + 3] as u64;
    let a7: u64 = (a & 0x7f) as u64;
    let binary: u64 = (a7 << 24) | (b64 << 16) | (c64 << 8) | d64;
    proof {
        assert(((a & 0x7f) as u64) << 24 | (b64 << 16) | (c64 << 8) | d64 == ((a
            & 0x7f) as u64) * 0x1000000 + b64 * 0x10000 + c64 * 0x100 + d64) by (bit_vector)
            requires
                b64 < 256,
                c64 < 256,
                d64 < 256,
        ;
        assert(binary as int == truncated_binary(hash@));
    }
    let modulus = pow_10(digits);
    let code_value = binary % modulus;
    proof {
        assert(code_value as int == truncated_value(hash@, digits as nat));
    }
    let uint_string = u64_to_dec_string(code_value);
    pad_string(uint_string, digits as usize)
}

proof fn lemma_dec_chars_len(n: nat, w: nat)
    requires
        1 <= w,
        n < pow10(w),
    ensures
        dec_chars(n).len() <= w,
    decreases w,
{
    if n >= 10 {
        if w == 1 {
            reveal_with_fuel(pow10, 3);
            assert(pow10(1) == 10);
        }
        assert(pow10(w) == 10 * pow10((w - 1) as nat));
        assert(n / 10 < pow10((w - 1) as nat)) by (nonlinear_arith)
            requires
                n < 10 * pow10((w - 1) as nat),
        ;
        lemma_dec_chars_len(n / 10, (w - 1) as nat);
    }
}

/// A generated code is exactly `digits` characters wide, for any positive
/// width: the code value is reduced modulo ten to the `digits`, so its
/// decimal rendering never exceeds the width, and zero padding fills it —
/// padding alone, without truncation, renders the code.
pub proof fn lemma_code_width(algo: Algo, secret: Seq<u8>, digits: nat, data: Seq<u8>)
    requires
        1 <= digits,
    ensures
        code_chars(algo, secret, digits, data).len() == digits,
{
    let hash = hmac_of(algo, secret, data);
    lemma_pow10_pos(digits);
    vstd::arithmetic::div_mod::lemma_mod_bound(truncated_binary(hash), pow10(digits) as int);
    lemma_dec_chars_len(truncated_value(hash, digits) as nat, digits);
    assert(dec_chars(truncated_value(hash, digits) as nat).len() >= 1);
}

/// The eight bytes of a 64-bit number, big endian.
pub open spec fn be_bytes_of_u64(x: u64) -> Seq<u8> {
    seq![
        ((x >> 56) & 0xff) as u8,
        ((x >> 48) & 0xff) as u8,
        ((x >> 40) & 0xff) as u8,
        ((x >> 32) & 0xff) as u8,
        ((x >> 24) & 0xff) as u8,
        ((x >> 16) & 0xff) as u8,
        ((x >> 8) & 0xff) as u8,
        (x & 0xff) as u8,
    ]
}

fn u64_to_be_bytes(x: u64) -> (r: Vec<u8>)
    ensures
        r@ == be_bytes_of_u64(x),
{
    proof {
        assert((x >> 56) & 0xff < 256 && (x >> 48) & 0xff < 256 && (x >> 40) & 0xff < 256 && (x
            >> 32) & 0xff < 256 && (x >> 24) & 0xff < 256 && (x >> 16) & 0xff < 256 && (x >> 8)
            & 0xff < 256 && x & 0xff < 256) by (bit_vector);
    }
    let mut v: Vec<u8> = Vec::new();
    v.push(((x >> 56) & 0xff) as u8);
    v.push(((x >> 48) & 0xff) as u8);
    v.push(((x >> 40) & 0xff) as u8);
    v.push(((x >> 32) & 0xff) as u8);
    v.push(((x >> 24) & 0xff) as u8);
    v.push(((x >> 16) & 0xff) as u8);
    v.push(((x >> 8) & 0xff) as u8);
    v.push((x & 0xff) as u8);
    proof {
        assert(v@ =~= be_bytes_of_u64(x));
    }
    v
}

/// Creates an HOTP code: the counter, big endian, fed to SHA-1 dynamic truncation.
pub fn _hotp(secret: &[u8], digits: u32, counter: u64) -> (r: String)
    requires
        digits <= 19,
    ensures
        r@ == code_chars(Algo::SHA1, secret@, digits as nat, be_bytes_of_u64(counter)),
{
    let counter_bytes = u64_to_be_bytes(counter);
    generate_integer_string(&Algo::SHA1, secret, digits, counter_bytes.as_slice())
}

/// Creates a TOTP code: the time window index `time / step`, big endian, as
/// the HOTP counter.
pub fn _totp(algorithm: &Algo, secret: &[u8], digits: u32, step: u64, time: u64) -> (r: String)
    requires
        digits <= 19,
        step > 0,
    ensures
        r@ == code_chars(*algorithm, secret@, digits as nat, be_bytes_of_u64(time / step)),
{
    let data = u64_to_be_bytes(time / step);
    generate_integer_string(algorithm, secret, digits, data.as_slice())
}

/// Two times that fall in the same step window yield the same code: the code
/// depends on the time only through the window index `time / step`.
pub proof fn lemma_same_window_same_code(
    algo: Algo,
    secret: Seq<u8>,
    digits: nat,
    step: u64,
    t1: u64,
    t2: u64,
)
    requires
        step > 0,
        t1 / step == t2 / step,
    ensures
        code_chars(algo, secret, digits, be_bytes_of_u64(t1 / step)) == code_chars(
            algo,
            secret,
            digits,
            be_bytes_of_u64(t2 / step),
        ),
{
}

/// Within one step window the seconds remaining strictly decrease as time advances.
pub proof fn lemma_remaining_strictly_decreases(step: u64, t1: u64, t2: u64)
    requires
        step > 0,
        t1 < t2,
        t1 / step == t2 / step,
    ensures
        step - t2 % step < step - t1 % step,
{
    vstd::arithmetic::div_mod::lemma_fundamental_div_mod(t1 as int, step as int);
    vstd::arithmetic::div_mod::lemma_fundamental_div_mod(t2 as int, step as int);
}

/// At a window boundary the seconds remaining reset to the full step.
pub proof fn lemma_remaining_resets(step: u64, t: u64)
    requires
        step > 0,
        t % step == 0,
    ensures
        step - t % step == step,
{
}

} // verus!
