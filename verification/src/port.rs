//! The listening port as it is written on the command line.
//!
//! A port text is an optional plus sign followed by decimal digits that
//! denote a number of at most 65535. Everything here is stated over the
//! characters of the text.

use vstd::prelude::*;

verus! {

/// The largest port number.
pub const MAX_PORT: u16 = 65535;

/// Why a text is not a port number.
#[derive(Clone, Copy, Debug, PartialEq, Eq, Structural)]
pub enum PortError {
    /// The text has no characters at all.
    Empty,
    /// A character that is no decimal digit stands where a digit is due, or
    /// the text is a lone plus sign.
    InvalidDigit,
    /// The digits denote a number above 65535.
    TooLarge,
}

/// Whether `c` is one of the ten decimal digits.
pub open spec fn is_digit(c: char) -> bool {
    '0' <= c && c <= '9'
}

/// The number that the decimal digit `c` stands for.
pub open spec fn digit_value(c: char) -> nat {
    (c as u32 - '0' as u32) as nat
}

/// Whether every character of `s` is a decimal digit.
pub open spec fn all_digits(s: Seq<char>) -> bool {
    forall|i: int| 0 <= i < s.len() ==> is_digit(#[trigger] s[i])
}

/// The number that a run of decimal digits denotes, most significant digit
/// first. The empty run denotes zero.
pub open spec fn decimal_value(s: Seq<char>) -> nat
    decreases s.len(),
{
    if s.len() == 0 {
        0
    } else {
        10 * decimal_value(s.drop_last()) + digit_value(s.last())
    }
}

/// The text without its sign: what follows one leading plus sign, or the
/// whole text where it starts otherwise.
pub open spec fn unsigned_part(s: Seq<char>) -> Seq<char> {
    if s.len() > 0 && s[0] == '+' {
        s.subrange(1, s.len() as int)
    } else {
        s
    }
}

/// Whether `s` is a port text: at least one digit after the optional plus
/// sign, nothing but digits, and a value of at most 65535.
pub open spec fn is_port_text(s: Seq<char>) -> bool {
    let d = unsigned_part(s);
    d.len() > 0 && all_digits(d) && decimal_value(d) <= MAX_PORT
}

/// Whether some leading run of digits of `d` already denotes more than 65535.
pub open spec fn exceeds_max(d: Seq<char>) -> bool {
    exists|k: int|
        0 <= k <= d.len() && all_digits(#[trigger] d.take(k)) && decimal_value(d.take(k))
            > MAX_PORT
}

/// What a text means as a port. A port text gives its number. Of the others,
/// the empty text is `Empty`; a text whose digits run past 65535 before any
/// other character turns up is `TooLarge`; the rest are `InvalidDigit`.
pub open spec fn port_of(s: Seq<char>) -> Result<u16, PortError> {
    let d = unsigned_part(s);
    if s.len() == 0 {
        Err(PortError::Empty)
    } else if is_port_text(s) {
        Ok(decimal_value(d) as u16)
    } else if exceeds_max(d) {
        Err(PortError::TooLarge)
    } else {
        Err(PortError::InvalidDigit)
    }
}

/// The character that writes the digit `n`.
pub open spec fn digit_char(n: nat) -> char
    recommends
        n < 10,
{
    seq!['0', '1', '2', '3', '4', '5', '6', '7', '8', '9'][n as int]
}

/// The usual decimal text of `n`: no sign, and no zero in front but for zero
/// itself.
pub open spec fn decimal_text(n: nat) -> Seq<char>
    decreases n,
{
    if n < 10 {
        seq![digit_char(n)]
    } else {
        decimal_text(n / 10).push(digit_char(n % 10))
    }
}

/// Reads one decimal digit.
pub fn digit_of(c: char) -> (r: Option<u8>)
    ensures
        r is Some <==> is_digit(c),
        r matches Some(d) ==> d == digit_value(c),
{
    if '0' <= c && c <= '9' {
        Some((c as u32 - '0' as u32) as u8)
    } else {
        None
    }
}

/// The value of a run grows by one decimal place with each character.
proof fn lemma_value_step(d: Seq<char>, j: int)
    requires
        0 <= j < d.len(),
    ensures
        decimal_value(d.take(j + 1)) == 10 * decimal_value(d.take(j)) + digit_value(d[j]),
{
    assert(d.take(j + 1).drop_last() =~= d.take(j));
}

/// A longer leading run never denotes less than a shorter one.
proof fn lemma_value_monotone(d: Seq<char>, j: int, k: int)
    requires
        0 <= j <= k <= d.len(),
    ensures
        decimal_value(d.take(j)) <= decimal_value(d.take(k)),
    decreases k - j,
{
    if j < k {
        lemma_value_step(d, k - 1);
        lemma_value_monotone(d, j, k - 1);
    }
}

/// Reads a port from its text.
///
/// The text is read from the left. Reading stops at the first character that
/// is no digit, or at the first digit that takes the number past 65535,
/// whichever comes first; that decides between the two errors.
pub fn parse_port(text: &str) -> (r: Result<u16, PortError>)
    ensures
        r == port_of(text@),
        r is Ok <==> is_port_text(text@),
{
    let mut acc: u32 = 0;
    let mut at_start = true;
    let mut any_digit = false;
    let ghost s = text@;
    let ghost d = unsigned_part(s);
    // How many characters have been read, and how many of them belong to `d`.
    let ghost mut read: int = 0;
    let ghost mut taken: int = 0;
    for c in it: text.chars()
        invariant
            s == text@,
            it.seq() == s,
            d == unsigned_part(s),
            read == it.index(),
            at_start <==> read == 0,
            taken == (if read > 0 && s[0] == '+' {
                read - 1
            } else {
                read
            }),
            any_digit <==> taken > 0,
            0 <= taken <= d.len(),
            all_digits(d.take(taken)),
            acc == decimal_value(d.take(taken)),
            acc <= MAX_PORT,
    {
        if at_start && c == '+' {
            // The sign: `d` starts behind it.
        } else {
            assert(d[taken] == c);
            match digit_of(c) {
                None => {
                    proof {
                        // No run of digits reaches past this character, and
                        // the runs before it are within the range.
                        assert forall|k: int|
                            0 <= k <= d.len() && all_digits(#[trigger] d.take(k)) implies !(
                        decimal_value(d.take(k)) > MAX_PORT) by {
                            if k > taken {
                                assert(d.take(k)[taken] == d[taken]);
                            }
                            lemma_value_monotone(d, k, taken);
                        }
                    }
                    return Err(PortError::InvalidDigit);
                },
                Some(v) => {
                    let next: u32 = acc * 10 + v as u32;
                    proof {
                        lemma_value_step(d, taken);
                        assert forall|n: int| 0 <= n < taken + 1 implies is_digit(
                            #[trigger] d.take(taken + 1)[n],
                        ) by {
                            if n < taken {
                                assert(d.take(taken)[n] == d[n]);
                            }
                        }
                    }
                    if next > 65535 {
                        proof {
                            lemma_value_monotone(d, taken + 1, d.len() as int);
                            assert(d.take(d.len() as int) =~= d);
                        }
                        return Err(PortError::TooLarge);
                    }
                    acc = next;
                    any_digit = true;
                    proof {
                        taken = taken + 1;
                    }
                },
            }
        }
        at_start = false;
        proof {
            read = read + 1;
        }
    }
    proof {
        assert(d.take(d.len() as int) =~= d);
    }
    if any_digit {
        Ok(acc as u16)
    } else if at_start {
        Err(PortError::Empty)
    } else {
        // A lone sign.
        Err(PortError::InvalidDigit)
    }
}

impl PortError {
    /// The sentence that names this error.
    pub open spec fn message_text(self) -> Seq<char> {
        match self {
            PortError::Empty => "cannot parse integer from empty string"@,
            PortError::InvalidDigit => "invalid digit found in string"@,
            PortError::TooLarge => "number too large to fit in target type"@,
        }
    }

    /// The sentence that names this error.
    pub fn message(&self) -> (r: String)
        ensures
            r@ == self.message_text(),
    {
        match self {
            PortError::Empty => "cannot parse integer from empty string".to_owned(),
            PortError::InvalidDigit => "invalid digit found in string".to_owned(),
            PortError::TooLarge => "number too large to fit in target type".to_owned(),
        }
    }

    /// The error as it is shown to the user: its sentence between double
    /// quotes.
    pub fn description(&self) -> (r: String)
        ensures
            r@ == seq!['"'] + self.message_text() + seq!['"'],
    {
        proof {
            reveal_strlit("cannot parse integer from empty string");
            reveal_strlit("invalid digit found in string");
            reveal_strlit("number too large to fit in target type");
            reveal_strlit("\"cannot parse integer from empty string\"");
            reveal_strlit("\"invalid digit found in string\"");
            reveal_strlit("\"number too large to fit in target type\"");
        }
        match self {
            PortError::Empty => "\"cannot parse integer from empty string\"".to_owned(),
            PortError::InvalidDigit => "\"invalid digit found in string\"".to_owned(),
            PortError::TooLarge => "\"number too large to fit in target type\"".to_owned(),
        }
    }
}

/// A text is read as a port exactly when it is a port text, and then as the
/// number that its digits denote.
pub proof fn lemma_port_texts_are_accepted(s: Seq<char>)
    ensures
        port_of(s) is Ok <==> is_port_text(s),
        port_of(s) matches Ok(port) ==> port == decimal_value(unsigned_part(s)),
{
}

/// Each error has its own texts: `Empty` the empty text alone; `TooLarge`
/// the texts in which a leading run of digits passes 65535; `InvalidDigit`
/// the remaining texts that are no port texts, each of which is a lone plus
/// sign or holds a character that is no digit.
pub proof fn lemma_port_errors(s: Seq<char>)
    ensures
        port_of(s) == Err::<u16, PortError>(PortError::Empty) <==> s.len() == 0,
        port_of(s) == Err::<u16, PortError>(PortError::TooLarge) <==> exceeds_max(
            unsigned_part(s),
        ),
        port_of(s) == Err::<u16, PortError>(PortError::InvalidDigit) <==> s.len() > 0
            && !is_port_text(s) && !exceeds_max(unsigned_part(s)),
        port_of(s) == Err::<u16, PortError>(PortError::InvalidDigit) ==> unsigned_part(s).len()
            == 0 || !all_digits(unsigned_part(s)),
{
    let d = unsigned_part(s);
    if exceeds_max(d) {
        let k = choose|k: int|
            0 <= k <= d.len() && all_digits(#[trigger] d.take(k)) && decimal_value(d.take(k))
                > MAX_PORT;
        lemma_value_monotone(d, k, d.len() as int);
        assert(d.take(d.len() as int) =~= d);
        assert(d.take(0).len() == 0);
        assert(k > 0);
    }
    if d.len() > 0 && all_digits(d) && !is_port_text(s) {
        assert(d.take(d.len() as int) =~= d);
    }
}

/// A sign changes nothing: a text and the same text behind a plus sign are
/// read alike, unless the text is empty or itself starts with a plus sign.
pub proof fn lemma_plus_sign_is_ignored(s: Seq<char>)
    requires
        s.len() > 0,
        s[0] != '+',
    ensures
        port_of(seq!['+'] + s) == port_of(s),
{
    let t = seq!['+'] + s;
    assert(unsigned_part(t) =~= s);
    assert(unsigned_part(s) == s);
}

/// Zeros in front change nothing: a run of digits and the same run behind a
/// zero denote the same number.
pub proof fn lemma_leading_zero(d: Seq<char>)
    ensures
        decimal_value(seq!['0'] + d) == decimal_value(d),
    decreases d.len(),
{
    let t = seq!['0'] + d;
    if d.len() == 0 {
        assert(t.drop_last() =~= d);
        assert(decimal_value(t.drop_last()) == 0);
    } else {
        assert(t.drop_last() =~= seq!['0'] + d.drop_last());
        lemma_leading_zero(d.drop_last());
    }
}

/// The decimal text of a number is made of digits and denotes that number.
pub proof fn lemma_decimal_text_denotes(n: nat)
    ensures
        decimal_text(n).len() > 0,
        all_digits(decimal_text(n)),
        decimal_value(decimal_text(n)) == n,
    decreases n,
{
    let t = decimal_text(n);
    if n < 10 {
        assert(t.drop_last() =~= Seq::<char>::empty());
        assert(decimal_value(t.drop_last()) == 0);
        assert(digit_value(digit_char(n)) == n);
    } else {
        lemma_decimal_text_denotes(n / 10);
        assert(t.drop_last() =~= decimal_text(n / 10));
        assert(digit_value(digit_char(n % 10)) == n % 10);
        assert(is_digit(digit_char(n % 10)));
    }
}

/// Every port number can be written: its decimal text is a port text and is
/// read back as that number.
pub proof fn lemma_every_port_has_a_text(port: u16)
    ensures
        is_port_text(decimal_text(port as nat)),
        port_of(decimal_text(port as nat)) == Ok::<u16, PortError>(port),
{
    let t = decimal_text(port as nat);
    lemma_decimal_text_denotes(port as nat);
    assert(is_digit(t[0]));
    assert(unsigned_part(t) == t);
}

} // verus!
