use crate::error::LabelError;
use crate::text::{ascii_bytes, push_char};
use vstd::prelude::*;

verus! {

/// Whether `c` is one of the decimal digits `0` to `9`.
pub open spec fn is_digit(c: char) -> bool {
    '0' <= c && c <= '9'
}

/// The test for a decimal digit, as a predicate.
pub open spec fn digit_pred() -> spec_fn(char) -> bool {
    |c: char| is_digit(c)
}

/// The decimal digits of `raw`, in order; every other character is dropped.
pub open spec fn digits_of(raw: Seq<char>) -> Seq<char> {
    raw.filter(digit_pred())
}

/// The twelve payload digits that `raw` stands for: the first twelve of its
/// digits, or all of them followed by as many zeros as are missing.
pub open spec fn payload_of(raw: Seq<char>) -> Seq<char> {
    let digits = digits_of(raw);
    if digits.len() >= 12 {
        digits.take(12)
    } else {
        digits + Seq::new((12 - digits.len()) as nat, |i: int| '0')
    }
}

/// The value of a digit, and zero for any other character; a payload holds
/// digits only.
pub open spec fn digit_value(c: char) -> nat {
    if is_digit(c) {
        (c as nat - 48) as nat
    } else {
        0
    }
}

/// The digit that stands for `d`.
pub open spec fn digit_char(d: nat) -> char
    recommends
        d < 10,
{
    (48 + d) as char
}

/// The checksum weight of the digit at index `i`: one at even indices,
/// three at odd ones.
pub open spec fn digit_weight(i: int) -> nat {
    if i % 2 == 0 {
        1
    } else {
        3
    }
}

/// The sum of every digit of `code` times the weight of its index.
pub open spec fn weighted_sum(code: Seq<char>) -> nat
    decreases code.len(),
{
    if code.len() == 0 {
        0
    } else {
        weighted_sum(code.drop_last()) + digit_value(code.last()) * digit_weight(code.len() - 1)
    }
}

/// The check digit of `code`: what brings its weighted sum up to the next
/// multiple of ten.
pub open spec fn check_digit(code: Seq<char>) -> nat {
    ((10 - weighted_sum(code) % 10) % 10) as nat
}

/// A payload followed by its check digit.
pub open spec fn with_checksum(payload: Seq<char>) -> Seq<char> {
    payload.push(digit_char(check_digit(payload)))
}

/// Thirteen digits of which the last is the check digit of the first
/// twelve.
pub open spec fn is_ean13(code: Seq<char>) -> bool {
    &&& code.len() == 13
    &&& forall|i: int| 0 <= i < 13 ==> is_digit(#[trigger] code[i])
    &&& digit_value(code[12]) == check_digit(code.take(12))
}

/// Appending a character appends it to the digits where it is one, and
/// leaves the digits as they are where it is none.
proof fn lemma_digits_of_push(s: Seq<char>, c: char)
    ensures
        digits_of(s.push(c)) == if is_digit(c) {
            digits_of(s).push(c)
        } else {
            digits_of(s)
        },
{
    reveal(Seq::filter);
    assert(s.push(c).drop_last() =~= s);
}

/// A payload is made of twelve digits.
proof fn lemma_payload_digits(raw: Seq<char>)
    ensures
        payload_of(raw).len() == 12,
        forall|i: int| 0 <= i < 12 ==> is_digit(#[trigger] payload_of(raw)[i]),
{
    let digits = digits_of(raw);
    assert forall|i: int| 0 <= i < 12 implies is_digit(#[trigger] payload_of(raw)[i]) by {
        if i < digits.len() {
            raw.lemma_filter_pred(digit_pred(), i);
        }
    }
}

/// A string of nothing but digits is its own digits.
pub proof fn lemma_digits_of_digits(s: Seq<char>)
    requires
        forall|i: int| 0 <= i < s.len() ==> is_digit(#[trigger] s[i]),
    ensures
        digits_of(s) == s,
    decreases s.len(),
{
    if s.len() > 0 {
        lemma_digits_of_digits(s.drop_last());
        lemma_digits_of_push(s.drop_last(), s.last());
        assert(s.drop_last().push(s.last()) =~= s);
    } else {
        reveal(Seq::filter);
        assert(digits_of(s) =~= s);
    }
}

/// Twelve digits are their own payload.
pub proof fn lemma_payload_of_twelve_digits(s: Seq<char>)
    requires
        s.len() == 12,
        forall|i: int| 0 <= i < s.len() ==> is_digit(#[trigger] s[i]),
    ensures
        payload_of(s) == s,
{
    lemma_digits_of_digits(s);
    assert(s.take(12) =~= s);
}

/// Whatever `raw` holds, its payload followed by the check digit is a
/// consistent EAN-13 code.
pub proof fn lemma_full_code_is_ean13(raw: Seq<char>)
    ensures
        is_ean13(with_checksum(payload_of(raw))),
{
    lemma_payload_digits(raw);
    let payload = payload_of(raw);
    let code = with_checksum(payload);
    assert(code.take(12) =~= payload);
}

/// The digits of `raw`, in order.
pub fn keep_digits(raw: &str) -> (out: String)
    ensures
        out@ == digits_of(raw@),
{
    let mut out: String = String::new();
    for c in it: raw.chars()
        invariant
            it.seq() == raw@,
            out@ == digits_of(it.seq().take(it.index())),
    {
        proof {
            let prefix = raw@.take(it.index());
            assert(raw@.take(it.index() + 1) =~= prefix.push(c));
            lemma_digits_of_push(prefix, c);
        }
        if c >= '0' && c <= '9' {
            push_char(&mut out, c);
        }
    }
    proof {
        assert(raw@.take(raw@.len() as int) =~= raw@);
    }
    out
}

/// The first twelve of the digits, or all of them filled up with zeros on
/// the right.
fn fill_payload(digits: String) -> (out: String)
    ensures
        out@ == (if digits@.len() >= 12 {
            digits@.take(12)
        } else {
            digits@ + Seq::new((12 - digits@.len()) as nat, |k: int| '0')
        }),
{
    let n: usize = digits.as_str().unicode_len();
    if n >= 12 {
        let head: &str = digits.as_str().substring_char(0, 12);
        return head.to_owned();
    }
    let ghost given = digits@;
    let mut out: String = digits;
    let mut i: usize = n;
    proof {
        assert(out@ =~= given + Seq::new(0nat, |k: int| '0'));
    }
    while i < 12
        invariant
            n <= i <= 12,
            n == given.len(),
            out@ == given + Seq::new((i - n) as nat, |k: int| '0'),
        decreases 12 - i,
    {
        push_char(&mut out, '0');
        i += 1;
        proof {
            assert(out@ =~= given + Seq::new((i - n) as nat, |k: int| '0'));
        }
    }
    out
}

/// Brings a barcode string to the twelve payload digits of an EAN-13 code.
/// Characters that are no digits are dropped; of thirteen digits or more
/// the first twelve are kept, so that a check digit that is already there
/// goes; fewer than twelve are filled up with zeros on the right. A string
/// without any digit is refused.
pub fn ensure_valid_ean13(barcode: &str) -> (out: Result<String, LabelError>)
    ensures
        out is Err <==> digits_of(barcode@).len() == 0,
        out matches Err(e) ==> e == LabelError::InvalidBarcodeDigits,
        out matches Ok(payload) ==> payload@ == payload_of(barcode@),
{
    let digits: String = keep_digits(barcode);
    if digits.as_str().unicode_len() == 0 {
        return Err(LabelError::InvalidBarcodeDigits);
    }
    Ok(fill_payload(digits))
}

/// The weighted sum of a code of fewer than thirteen characters.
fn weighted_sum_of(code: &str) -> (sum: u32)
    requires
        code@.len() < 13,
    ensures
        sum == weighted_sum(code@),
        sum <= 27 * 12,
{
    let mut sum: u32 = 0;
    let mut index: usize = 0;
    for c in it: code.chars()
        invariant
            it.seq() == code@,
            code@.len() < 13,
            index == it.index(),
            sum == weighted_sum(it.seq().take(it.index())),
            sum <= 27 * it.index(),
    {
        proof {
            let next = code@.take(it.index() + 1);
            assert(next.drop_last() =~= code@.take(it.index()));
            assert(next.last() == c);
            assert(next.len() - 1 == index);
        }
        let d: u32 = if c >= '0' && c <= '9' {
            (c as u32) - 48
        } else {
            0
        };
        proof {
            let value = digit_value(c);
            let weight = digit_weight(index as int);
            assert(value * weight == if index % 2 == 0 {
                d as int
            } else {
                d * 3
            }) by (nonlinear_arith)
                requires
                    value == d,
                    weight == (if index % 2 == 0 {
                        1nat
                    } else {
                        3nat
                    }),
            ;
        }
        if index % 2 == 0 {
            sum += d;
        } else {
            sum += d * 3;
        }
        index += 1;
    }
    proof {
        assert(code@.take(code@.len() as int) =~= code@);
    }
    sum
}

/// The digit that stands for `d`.
fn char_of_digit(d: u32) -> (c: char)
    requires
        d < 10,
    ensures
        c == digit_char(d as nat),
        is_digit(c),
        digit_value(c) == d,
{
    ((48 + d) as u8) as char
}

/// Appends the check digit to a payload of twelve characters.
fn append_check_digit(payload: String) -> (out: String)
    requires
        payload@.len() == 12,
    ensures
        out@ == with_checksum(payload@),
{
    let sum: u32 = weighted_sum_of(payload.as_str());
    let check: u32 = (10 - (sum % 10)) % 10;
    let mut out: String = payload;
    push_char(&mut out, char_of_digit(check));
    out
}

/// The complete EAN-13 code of `code`: its twelve payload digits followed
/// by their check digit. Characters that are no digits are dropped; of
/// thirteen digits or more the first twelve are kept and the check digit
/// is computed anew; fewer than twelve are filled up with zeros on the
/// right. Digits at even indices weigh one, those at odd indices three.
pub fn ean13_with_checksum(code: String) -> (out: String)
    ensures
        out@ == with_checksum(payload_of(code@)),
        is_ean13(out@),
{
    let payload: String = fill_payload(keep_digits(code.as_str()));
    proof {
        lemma_payload_digits(code@);
        lemma_full_code_is_ean13(code@);
    }
    append_check_digit(payload)
}

/// A complete EAN-13 code: twelve payload digits and their check digit.
pub struct Ean13Code {
    digits: String,
}

impl View for Ean13Code {
    type V = Seq<char>;

    closed spec fn view(&self) -> Seq<char> {
        self.digits@
    }
}

impl Ean13Code {
    /// The check digit of every code is the one its payload asks for.
    #[verifier::type_invariant]
    pub open spec fn inv(&self) -> bool {
        is_ean13(self@)
    }

    /// The thirteen digits as text.
    pub fn as_str(&self) -> (s: &str)
        ensures
            s@ == self@,
            is_ean13(s@),
    {
        proof {
            use_type_invariant(self);
        }
        self.digits.as_str()
    }

    /// A copy of the code.
    pub fn duplicate(&self) -> (out: Ean13Code)
        ensures
            out@ == self@,
    {
        proof {
            use_type_invariant(self);
        }
        Ean13Code { digits: self.digits.clone() }
    }

    /// The thirteen digits as ASCII bytes.
    pub fn to_bytes(&self) -> (bytes: Vec<u8>)
        ensures
            bytes@ == ascii_bytes(self@),
            is_ean13(self@),
    {
        proof {
            use_type_invariant(self);
            lemma_digits_are_ascii(self@);
        }
        let s: &str = self.digits.as_str();
        let bytes: Vec<u8> = s.as_bytes_vec();
        proof {
            vstd::string::is_ascii_spec_bytes(s);
            assert(bytes@ =~= ascii_bytes(self@));
        }
        bytes
    }
}

/// Digits are ASCII characters.
proof fn lemma_digits_are_ascii(code: Seq<char>)
    requires
        forall|i: int| 0 <= i < code.len() ==> is_digit(#[trigger] code[i]),
    ensures
        vstd::utf8::is_ascii_chars(code),
{
}

/// The complete EAN-13 code that a barcode string stands for: its payload
/// digits followed by their check digit. A string without any digit is
/// refused.
pub fn normalize_ean13(raw: &str) -> (out: Result<Ean13Code, LabelError>)
    ensures
        out is Err <==> digits_of(raw@).len() == 0,
        out matches Err(e) ==> e == LabelError::InvalidBarcodeDigits,
        out matches Ok(code) ==> code@ == with_checksum(payload_of(raw@)),
{
    match ensure_valid_ean13(raw) {
        Err(e) => Err(e),
        Ok(payload) => {
            proof {
                lemma_payload_digits(raw@);
                lemma_full_code_is_ean13(raw@);
            }
            let digits: String = append_check_digit(payload);
            Ok(Ean13Code { digits })
        },
    }
}

} // verus!
