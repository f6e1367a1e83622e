//! Derivation of time-based one-time codes (RFC 6238) from a shared secret,
//! built on HOTP (RFC 4226) with HMAC-SHA1.

use vstd::prelude::*;
use vstd::string::StringExecFns;
use crate::base32::{base32_decoding, decode_base32};

verus! {

/// 10 raised to `e`.
pub open spec fn pow10(e: nat) -> nat
    decreases e,
{
    if e == 0 {
        1
    } else {
        10 * pow10((e - 1) as nat)
    }
}

proof fn lemma_pow10_values()
    ensures
        pow10(0) == 1,
        pow10(1) == 10,
        pow10(2) == 100,
        pow10(3) == 1000,
        pow10(4) == 10000,
        pow10(5) == 100000,
        pow10(6) == 1000000,
        pow10(7) == 10000000,
        pow10(8) == 100000000,
        pow10(9) == 1000000000,
{
    assert(pow10(0) == 1);
    assert(pow10(1) == 10);
    assert(pow10(2) == 100);
    assert(pow10(3) == 1000);
    assert(pow10(4) == 10000);
    assert(pow10(5) == 100000);
    assert(pow10(6) == 1000000);
    assert(pow10(7) == 10000000);
    assert(pow10(8) == 100000000);
    assert(pow10(9) == 1000000000);
}

/// Big-endian 8-byte encoding of the 64-bit counter (RFC 4226 section 5.1).
pub open spec fn spec_be_bytes(x: u64) -> Seq<u8> {
    Seq::new(8, |i: int| (((x >> (((7 - i) * 8) as u64)) & 0xff) as u8))
}

fn counter_bytes(x: u64) -> (r: Vec<u8>)
    ensures
        r@ == spec_be_bytes(x),
{
    proof {
        assert((x >> 56u64) & 0xff < 256 && (x >> 48u64) & 0xff < 256 && (x >> 40u64) & 0xff
            < 256 && (x >> 32u64) & 0xff < 256 && (x >> 24u64) & 0xff < 256 && (x >> 16u64) & 0xff
            < 256 && (x >> 8u64) & 0xff < 256 && (x >> 0u64) & 0xff < 256) by (bit_vector);
    }
    let mut v: Vec<u8> = Vec::new();
    v.push(((x >> 56u64) & 0xff) as u8);
    v.push(((x >> 48u64) & 0xff) as u8);
    v.push(((x >> 40u64) & 0xff) as u8);
    v.push(((x >> 32u64) & 0xff) as u8);
    v.push(((x >> 24u64) & 0xff) as u8);
    v.push(((x >> 16u64) & 0xff) as u8);
    v.push(((x >> 8u64) & 0xff) as u8);
    v.push(((x >> 0u64) & 0xff) as u8);
    proof {
        assert(v@ =~= spec_be_bytes(x));
    }
    v
}

/// Dynamic truncation (RFC 4226 section 5.4): the low nibble of the last MAC
/// byte picks an offset; the four bytes there, with the top bit cleared, read
/// as a big-endian 31-bit integer.
pub open spec fn spec_truncated(mac: Seq<u8>) -> int
    recommends
        mac.len() == 20,
{
    let off = (mac[19] & 0x0f) as int;
    (mac[off] & 0x7f) * 0x1000000 + mac[off + 1] * 0x10000 + mac[off + 2] * 0x100 + mac[off + 3]
}

/// The code a MAC yields for a digit count: dynamic truncation reduced
/// modulo 10^digits.
pub open spec fn spec_hotp_code(mac: Seq<u8>, digits: u8) -> int {
    spec_truncated(mac) % (pow10(digits as nat) as int)
}

/// What HMAC-SHA1 makes of a key and a message: a function of the two
/// arguments alone.
pub uninterp spec fn hmac_sha1_of(key: Seq<u8>, msg: Seq<u8>) -> Seq<u8>;

/// Relies on the `hmac` crate's `Hmac<Sha1>`: HMAC (RFC 2104) over SHA-1,
/// whose output is 20 bytes. `HmacCore::new_from_slice` accepts keys of any
/// length and never fails.
#[verifier::external_body]
fn hmac_sha1(key: &[u8], msg: &[u8]) -> (r: Vec<u8>)
    ensures
        r@ == hmac_sha1_of(key@, msg@),
        r@.len() == 20,
{
    let mut mac = <hmac::Hmac<sha1::Sha1> as hmac::KeyInit>::new_from_slice(key)
        .expect("HMAC accepts keys of any length");
    hmac::Mac::update(&mut mac, msg);
    hmac::Mac::finalize(mac).into_bytes().to_vec()
}

/// The value of the code at `time` (RFC 6238): HOTP of the time-step counter.
pub open spec fn spec_code_value(key: Seq<u8>, time: u64, interval: u64, digits: u8) -> int
    recommends
        interval > 0,
{
    spec_hotp_code(hmac_sha1_of(key, spec_be_bytes((time / interval) as u64)), digits)
}

/// Two generations within the same time step yield the same code value.
pub proof fn lemma_same_step_same_code(key: Seq<u8>, interval: u64, digits: u8, t1: u64, t2: u64)
    requires
        interval > 0,
        t1 / interval == t2 / interval,
    ensures
        spec_code_value(key, t1, interval, digits) == spec_code_value(key, t2, interval, digits),
{
}

/// A generated code: its numeric value, how many seconds it stays valid, and
/// the digit count it is displayed with.
pub struct OtpCode {
    value: u32,
    validity_sec: u64,
    nr_digits: u8,
}

impl OtpCode {
    pub closed spec fn spec_value(&self) -> u32 {
        self.value
    }

    pub closed spec fn spec_validity(&self) -> u64 {
        self.validity_sec
    }

    pub closed spec fn spec_digits(&self) -> u8 {
        self.nr_digits
    }

    /// The digit count is displayable and the value fits in it.
    pub open spec fn wf(&self) -> bool {
        &&& 1 <= self.spec_digits() <= 9
        &&& (self.spec_value() as int) < pow10(self.spec_digits() as nat)
        &&& self.spec_validity() >= 1
    }

    pub fn new(value: u32, validity_sec: u64, nr_digits: u8) -> (r: Self)
        ensures
            r.spec_value() == value,
            r.spec_validity() == validity_sec,
            r.spec_digits() == nr_digits,
    {
        OtpCode { value, validity_sec, nr_digits }
    }

    pub fn value(&self) -> (r: u32)
        ensures
            r == self.spec_value(),
    {
        self.value
    }

    pub fn validity_sec(&self) -> (r: u64)
        ensures
            r == self.spec_validity(),
    {
        self.validity_sec
    }

    pub fn nr_digits(&self) -> (r: u8)
        ensures
            r == self.spec_digits(),
    {
        self.nr_digits
    }

    /// The canonical display of the whole code: the zero-padded value
    /// followed by the validity window, e.g. `042157 (Validity: 23s)`.
    pub open spec fn spec_display(&self) -> Seq<char> {
        spec_padded_decimal(self.spec_value() as nat, self.spec_digits() as nat)
            + " (Validity: "@ + spec_decimal(self.spec_validity() as nat) + "s)"@
    }

    /// The code value in decimal, left-padded with zeros to exactly the
    /// digit count; leading zeros are significant and never stripped.
    pub fn code_string(&self) -> (s: String)
        requires
            self.wf(),
        ensures
            s@ == spec_padded_decimal(self.spec_value() as nat, self.spec_digits() as nat),
            s@.len() == self.spec_digits(),
    {
        proof {
            lemma_decimal_len_bound(self.spec_value() as nat, self.spec_digits() as nat);
        }
        let mut s = String::new();
        let len = decimal_len_u64(self.value as u64);
        let width = self.nr_digits as usize;
        let mut k = len;
        while k < width
            invariant
                len <= k <= width,
                s@ =~= Seq::new((k - len) as nat, |i: int| '0'),
            decreases width - k,
        {
            push_digit(&mut s, 0);
            k += 1;
        }
        push_decimal_u64(&mut s, self.value as u64);
        proof {
            assert(s@ =~= spec_padded_decimal(self.spec_value() as nat, self.spec_digits() as nat));
        }
        s
    }

    /// The canonical display of the code, per `spec_display`.
    pub fn display_string(&self) -> (s: String)
        requires
            self.wf(),
        ensures
            s@ == self.spec_display(),
    {
        let mut s = self.code_string();
        s.append(" (Validity: ");
        push_decimal_u64(&mut s, self.validity_sec);
        s.append("s)");
        proof {
            assert(s@ =~= self.spec_display());
        }
        s
    }
}

/// The character for one decimal digit.
pub open spec fn spec_digit_char(d: int) -> char {
    if d == 0 {
        '0'
    } else if d == 1 {
        '1'
    } else if d == 2 {
        '2'
    } else if d == 3 {
        '3'
    } else if d == 4 {
        '4'
    } else if d == 5 {
        '5'
    } else if d == 6 {
        '6'
    } else if d == 7 {
        '7'
    } else if d == 8 {
        '8'
    } else {
        '9'
    }
}

/// The decimal digits of `n`, most significant first, with no leading zeros.
pub open spec fn spec_decimal(n: nat) -> Seq<char>
    decreases n,
{
    if n < 10 {
        seq![spec_digit_char(n as int)]
    } else {
        spec_decimal(n / 10) + seq![spec_digit_char((n % 10) as int)]
    }
}

/// The decimal digits of `n`, left-padded with zeros to `width` characters.
pub open spec fn spec_padded_decimal(n: nat, width: nat) -> Seq<char> {
    let ds = spec_decimal(n);
    if ds.len() >= width {
        ds
    } else {
        Seq::new((width - ds.len()) as nat, |i: int| '0') + ds
    }
}

/// A number below 10^e has at most e decimal digits.
proof fn lemma_decimal_len_bound(n: nat, e: nat)
    requires
        1 <= e,
        n < pow10(e),
    ensures
        spec_decimal(n).len() <= e,
    decreases e,
{
    if n < 10 {
    } else {
        assert(pow10(e) == 10 * pow10((e - 1) as nat));
        assert(n / 10 < pow10((e - 1) as nat)) by (nonlinear_arith)
            requires
                n >= 10,
                n < 10 * pow10((e - 1) as nat),
        ;
        assert(e >= 2) by {
            lemma_pow10_values();
        }
        lemma_decimal_len_bound(n / 10, (e - 1) as nat);
    }
}

fn push_digit(s: &mut String, d: u8)
    requires
        d < 10,
    ensures
        final(s)@ == old(s)@ + seq![spec_digit_char(d as int)],
{
    let piece: &str = if d == 0 {
        "0"
    } else if d == 1 {
        "1"
    } else if d == 2 {
        "2"
    } else if d == 3 {
        "3"
    } else if d == 4 {
        "4"
    } else if d == 5 {
        "5"
    } else if d == 6 {
        "6"
    } else if d == 7 {
        "7"
    } else if d == 8 {
        "8"
    } else {
        "9"
    };
    proof {
        reveal_strlit("0");
        reveal_strlit("1");
        reveal_strlit("2");
        reveal_strlit("3");
        reveal_strlit("4");
        reveal_strlit("5");
        reveal_strlit("6");
        reveal_strlit("7");
        reveal_strlit("8");
        reveal_strlit("9");
        assert(piece@ =~= seq![spec_digit_char(d as int)]);
    }
    s.append(piece);
}

fn push_decimal_u64(s: &mut String, n: u64)
    ensures
        final(s)@ == old(s)@ + spec_decimal(n as nat),
    decreases n,
{
    if n >= 10 {
        push_decimal_u64(s, n / 10);
        push_digit(s, (n % 10) as u8);
        proof {
            assert(s@ =~= old(s)@ + spec_decimal(n as nat));
        }
    } else {
        push_digit(s, n as u8);
    }
}

proof fn lemma_pow10_20()
    ensures
        pow10(20) == 100000000000000000000,
{
    lemma_pow10_values();
    assert(pow10(10) == 10000000000);
    assert(pow10(11) == 100000000000);
    assert(pow10(12) == 1000000000000);
    assert(pow10(13) == 10000000000000);
    assert(pow10(14) == 100000000000000);
    assert(pow10(15) == 1000000000000000);
    assert(pow10(16) == 10000000000000000);
    assert(pow10(17) == 100000000000000000);
    assert(pow10(18) == 1000000000000000000);
    assert(pow10(19) == 10000000000000000000);
    assert(pow10(20) == 100000000000000000000);
}

/// The number of decimal digits of `n`.
fn decimal_len_u64(n: u64) -> (r: usize)
    ensures
        r == spec_decimal(n as nat).len(),
        1 <= r <= 20,
    decreases n,
{
    proof {
        lemma_pow10_20();
        lemma_decimal_len_bound(n as nat, 20);
    }
    if n < 10 {
        1
    } else {
        let rest = decimal_len_u64(n / 10);
        proof {
            assert(spec_decimal(n as nat).len() == spec_decimal((n / 10) as nat).len() + 1);
        }
        rest + 1
    }
}

/// A generator bound to one secret, one time-step width and one digit count.
pub struct OtpGenerator {
    secret_bytes: Vec<u8>,
    interval: u64,
    nr_digits: u8,
}

impl OtpGenerator {
    pub closed spec fn spec_secret(&self) -> Seq<u8> {
        self.secret_bytes@
    }

    pub closed spec fn spec_interval(&self) -> u64 {
        self.interval
    }

    pub closed spec fn spec_digits(&self) -> u8 {
        self.nr_digits
    }

    /// The time step is positive and the digit count displayable.
    pub open spec fn wf(&self) -> bool {
        &&& self.spec_interval() > 0
        &&& 1 <= self.spec_digits() <= 9
    }

    pub fn new(secret_bytes: &[u8], interval: u64, nr_digits: u8) -> (r: Self)
        requires
            interval > 0,
            1 <= nr_digits <= 9,
        ensures
            r.wf(),
            r.spec_secret() == secret_bytes@,
            r.spec_interval() == interval,
            r.spec_digits() == nr_digits,
    {
        OtpGenerator {
            secret_bytes: vstd::slice::slice_to_vec(secret_bytes),
            interval,
            nr_digits,
        }
    }

    /// Dynamic truncation of a 20-byte MAC (RFC 4226 section 5.4).
    pub fn dt(hmac_output: &[u8]) -> (r: u32)
        requires
            hmac_output@.len() == 20,
        ensures
            r == spec_truncated(hmac_output@),
    {
        let last = hmac_output[19];
        proof {
            assert(last & 0xf < 16 && last & 0xf == last & 0x0f) by (bit_vector);
        }
        let offset_bits = (last & 0xf) as usize;
        let b0 = hmac_output[offset_bits];
        let b1 = hmac_output[offset_bits + 1];
        let b2 = hmac_output[offset_bits + 2];
        let b3 = hmac_output[offset_bits + 3];
        let r = ((b0 & 0x7f) as u32) << 24u32 | (b1 as u32) << 16u32 | (b2 as u32) << 8u32 | (
        b3 as u32);
        proof {
            assert((((b0 & 0x7f) as u32) << 24u32 | (b1 as u32) << 16u32 | (b2 as u32) << 8u32 | (
            b3 as u32)) == (b0 & 0x7f) * 0x1000000 + b1 * 0x10000 + b2 * 0x100 + b3)
                by (bit_vector);
        }
        r
    }

    /// Relies on std's `SystemTime::now` and `duration_since`: the current
    /// time as whole seconds since the Unix epoch; aborts if the system clock
    /// reads before the epoch.
    #[verifier::external_body]
    fn get_time() -> u64 {
        std::time::SystemTime::now()
            .duration_since(std::time::UNIX_EPOCH)
            .expect("Failed to compute the timestamp")
            .as_secs()
    }

    /// Seconds until the current time step ends, always within the step width.
    pub fn time_to_next_generation(&self) -> (r: u64)
        requires
            self.wf(),
        ensures
            1 <= r <= self.spec_interval(),
    {
        self.interval - (Self::get_time() % self.interval)
    }

    /// The code for the time step that `time` falls in, together with the
    /// seconds left in that step.
    pub fn generate_at(&self, time: u64) -> (r: OtpCode)
        requires
            self.wf(),
        ensures
            r.wf(),
            r.spec_digits() == self.spec_digits(),
            r.spec_value() == spec_code_value(
                self.spec_secret(),
                time,
                self.spec_interval(),
                self.spec_digits(),
            ),
            r.spec_validity() == self.spec_interval() - time % self.spec_interval(),
    {
        let counter: u64 = time / self.interval;
        let msg = counter_bytes(counter);
        let mac = hmac_sha1(self.secret_bytes.as_slice(), msg.as_slice());
        let sbits = Self::dt(mac.as_slice());
        let modulus = pow10_u32(self.nr_digits);
        let value = sbits % modulus;
        let validity = self.interval - time % self.interval;
        OtpCode::new(value, validity, self.nr_digits)
    }

    /// The code for the current time step. The error case is kept for callers
    /// although the keyed hash accepts every key, so generation itself cannot
    /// fail.
    pub fn generate(&self) -> (r: Result<OtpCode, ()>)
        requires
            self.wf(),
        ensures
            r is Ok,
            r matches Ok(c) ==> {
                &&& c.wf()
                &&& c.spec_digits() == self.spec_digits()
                &&& 1 <= c.spec_validity() <= self.spec_interval()
                &&& (c.spec_value() as int) < pow10(self.spec_digits() as nat)
                &&& exists|t: u64|
                    {
                        &&& c.spec_value() == #[trigger] spec_code_value(
                            self.spec_secret(),
                            t,
                            self.spec_interval(),
                            self.spec_digits(),
                        )
                        &&& c.spec_validity() == self.spec_interval() - t % self.spec_interval()
                    }
            },
    {
        let time = Self::get_time();
        let c = self.generate_at(time);
        proof {
            assert(c.spec_value() == spec_code_value(
                self.spec_secret(),
                time,
                self.spec_interval(),
                self.spec_digits(),
            ));
        }
        Ok(c)
    }
}

/// 10^e as a machine integer, for displayable digit counts.
fn pow10_u32(e: u8) -> (r: u32)
    requires
        e <= 9,
    ensures
        r == pow10(e as nat),
        r >= 1,
{
    proof {
        lemma_pow10_values();
    }
    let mut r: u32 = 1;
    let mut i: u8 = 0;
    while i < e
        invariant
            i <= e,
            e <= 9,
            r == pow10(i as nat),
        decreases e - i,
    {
        proof {
            lemma_pow10_mono(i as nat + 1, 9);
            lemma_pow10_values();
        }
        r = r * 10;
        i = i + 1;
    }
    r
}

proof fn lemma_pow10_mono(a: nat, b: nat)
    requires
        a <= b,
    ensures
        pow10(a) <= pow10(b),
    decreases b,
{
    if a < b {
        lemma_pow10_mono(a, (b - 1) as nat);
        assert(pow10(b) == 10 * pow10((b - 1) as nat));
    }
}

/// The code for the time step that `time` falls in, derived from a
/// Base32-encoded secret; fails exactly when the secret does not decode.
pub fn generate_from_base32_at(secret_base32: &str, interval: u64, nr_digits: u8, time: u64) -> (r:
    Result<OtpCode, ()>)
    requires
        interval > 0,
        1 <= nr_digits <= 9,
    ensures
        r is Ok <==> base32_decoding(secret_base32@) is Some,
        r matches Ok(c) ==> {
            &&& c.wf()
            &&& c.spec_digits() == nr_digits
            &&& c.spec_value() == spec_code_value(
                base32_decoding(secret_base32@).unwrap(),
                time,
                interval,
                nr_digits,
            )
            &&& c.spec_validity() == interval - time % interval
        },
{
    match decode_base32(secret_base32) {
        None => Err(()),
        Some(bytes) => {
            let generator = OtpGenerator::new(bytes.as_slice(), interval, nr_digits);
            Ok(generator.generate_at(time))
        },
    }
}

/// The code for the current time step, derived from a Base32-encoded secret;
/// fails exactly when the secret does not decode.
pub fn generate_from_base32(secret_base32: &str, interval: u64, nr_digits: u8) -> (r: Result<
    OtpCode,
    (),
>)
    requires
        interval > 0,
        1 <= nr_digits <= 9,
    ensures
        r is Ok <==> base32_decoding(secret_base32@) is Some,
        r matches Ok(c) ==> {
            &&& c.wf()
            &&& c.spec_digits() == nr_digits
            &&& 1 <= c.spec_validity() <= interval
            &&& exists|t: u64|
                {
                    &&& c.spec_value() == #[trigger] spec_code_value(
                        base32_decoding(secret_base32@).unwrap(),
                        t,
                        interval,
                        nr_digits,
                    )
                    &&& c.spec_validity() == interval - t % interval
                }
        },
{
    let time = OtpGenerator::get_time();
    match generate_from_base32_at(secret_base32, interval, nr_digits, time) {
        Ok(c) => {
            proof {
                assert(c.spec_value() == spec_code_value(
                    base32_decoding(secret_base32@).unwrap(),
                    time,
                    interval,
                    nr_digits,
                ));
            }
            Ok(c)
        },
        Err(()) => Err(()),
    }
}

} // verus!
