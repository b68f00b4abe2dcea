use vstd::prelude::*;
use vstd::string::*;
use crate::digits::{
    dec_val, is_u64_numeral, numeral_digits, overflows_before_invalid, parse_u64_numeral,
    ParseNumError,
};

verus! {

/// Fixed-size name in the storage network's XOR address space.
#[derive(Debug, Clone, Copy)]
pub struct XorName(pub [u8; 32]);

/// Hexadecimal digit character for a value below sixteen, lower case.
pub open spec fn hex_digit(d: int) -> char {
    if d == 0 {
        '0'
    } else if d == 1 {
        '1'
    } else if d == 2 {
        '2'
    } else if d == 3 {
        '3'
    } else if d == 4 {
        '4'
    } else if d == 5 {
        '5'
    } else if d == 6 {
        '6'
    } else if d == 7 {
        '7'
    } else if d == 8 {
        '8'
    } else if d == 9 {
        '9'
    } else if d == 10 {
        'a'
    } else if d == 11 {
        'b'
    } else if d == 12 {
        'c'
    } else if d == 13 {
        'd'
    } else if d == 14 {
        'e'
    } else {
        'f'
    }
}

/// Two lower-case hexadecimal digits of one byte, high nibble first.
pub open spec fn hex_of_byte(b: u8) -> Seq<char> {
    seq![hex_digit(b as int / 16), hex_digit(b as int % 16)]
}

/// Hexadecimal rendering of a byte sequence, two digits for each byte.
pub open spec fn hex_of_bytes(s: Seq<u8>) -> Seq<char>
    decreases s.len(),
{
    if s.len() == 0 {
        Seq::<char>::empty()
    } else {
        hex_of_bytes(s.drop_last()) + hex_of_byte(s.last())
    }
}

/// One-character string slice for a hexadecimal digit value below sixteen.
fn hex_char_str(d: u8) -> (r: &'static str)
    requires
        d < 16,
    ensures
        r@ =~= seq![hex_digit(d as int)],
{
    let digits: &'static str = "0123456789abcdef";
    proof {
        reveal_strlit("0123456789abcdef");
    }
    let r = digits.substring_ascii(d as usize, (d as usize) + 1);
    proof {
        assert(r@ =~= seq![hex_digit(d as int)]);
    }
    r
}

/// Hex-encode a name: each of its bytes becomes two lower-case digits.
pub fn xorname_to_hex(xorname: &XorName) -> (r: String)
    ensures
        r@ == hex_of_bytes(xorname.0@),
{
    let mut r = String::new();
    let mut i: usize = 0;
    while i < 32
        invariant
            0 <= i <= 32,
            r@ =~= hex_of_bytes(xorname.0@.take(i as int)),
        decreases 32 - i,
    {
        let b = xorname.0[i];
        r.append(hex_char_str(b / 16));
        r.append(hex_char_str(b % 16));
        proof {
            assert(xorname.0@.take(i + 1).drop_last() =~= xorname.0@.take(i as int));
            assert(xorname.0@.take(i + 1).last() == xorname.0@[i as int]);
            assert(r@ =~= hex_of_bytes(xorname.0@.take(i + 1)));
        }
        i = i + 1;
    }
    proof {
        assert(xorname.0@.take(32) =~= xorname.0@);
    }
    r
}

/// Next step in obtaining a secret key: either the key is already at hand,
/// or the user must be prompted with the given message.
#[derive(Debug, PartialEq, Eq)]
pub enum SecretKeyStep {
    /// The supplied key, passed through.
    Key(String),
    /// The prompt to show before reading the key from the user.
    Prompt(String),
}

/// The prompt shown when a secret key must be asked for.
pub open spec fn secret_key_prompt_text(key_xorurl: Seq<char>, msg: Seq<char>) -> Seq<char> {
    if key_xorurl.len() == 0 {
        "Enter secret key corresponding to "@ + msg + ": "@
    } else {
        "Enter secret key corresponding to public key at \""@ + key_xorurl + "\": "@
    }
}

/// Decide how to obtain a secret key: a non-empty supplied key is used as
/// it is; otherwise the user must be prompted, naming the public key's
/// address when one is known.  Reading the answer is the caller's business;
/// its cleanup is [`clean_user_input`].
pub fn get_secret_key(key_xorurl: &str, sk: Option<String>, msg: &str) -> (r: SecretKeyStep)
    ensures
        sk matches Some(k) ==> (if k@.len() > 0 {
            r matches SecretKeyStep::Key(k2) && k2 == k
        } else {
            r matches SecretKeyStep::Prompt(m) && m@ == secret_key_prompt_text(key_xorurl@, msg@)
        }),
        sk is None ==> (r matches SecretKeyStep::Prompt(m) && m@ == secret_key_prompt_text(
            key_xorurl@,
            msg@,
        )),
{
    let sk_val = match sk {
        Some(s) => s,
        None => String::new(),
    };
    if sk_val.as_str().is_empty() {
        let m = if key_xorurl.is_empty() {
            let mut m = String::from_str("Enter secret key corresponding to ");
            m.append(msg);
            m.append(": ");
            m
        } else {
            let mut m = String::from_str("Enter secret key corresponding to public key at \"");
            m.append(key_xorurl);
            m.append("\": ");
            m
        };
        SecretKeyStep::Prompt(m)
    } else {
        SecretKeyStep::Key(sk_val)
    }
}

/// A console line with its trailing newline removed: one final line feed
/// goes, then one final carriage return.
pub open spec fn chomped(s: Seq<char>) -> Seq<char> {
    let s1 = if s.len() > 0 && s.last() == '\n' {
        s.drop_last()
    } else {
        s
    };
    if s1.len() > 0 && s1.last() == '\r' {
        s1.drop_last()
    } else {
        s1
    }
}

/// Clean up a line the user typed at a prompt: strip the trailing newline
/// and carriage return; an answer that is then empty is rejected with the
/// given error text.
pub fn clean_user_input(input: &str, error_msg: &str) -> (r: Result<String, String>)
    ensures
        chomped(input@).len() > 0 ==> (r matches Ok(s) && s@ == chomped(input@)),
        chomped(input@).len() == 0 ==> (r matches Err(e) && e@ == error_msg@),
{
    let n = input.unicode_len();
    let (s1, n1) = if n > 0 && input.get_char(n - 1) == '\n' {
        (input.substring_char(0, n - 1), n - 1)
    } else {
        (input, n)
    };
    proof {
        assert(s1@ =~= if input@.len() > 0 && input@.last() == '\n' {
            input@.drop_last()
        } else {
            input@
        });
    }
    let (s2, n2) = if n1 > 0 && s1.get_char(n1 - 1) == '\r' {
        (s1.substring_char(0, n1 - 1), n1 - 1)
    } else {
        (s1, n1)
    };
    proof {
        assert(s2@ =~= chomped(input@));
    }
    if n2 == 0 {
        Err(error_msg.to_owned())
    } else {
        Ok(s2.to_owned())
    }
}

/// The text shown while waiting for data on the standard input stream: the
/// caller's own message, or a default note.
pub fn stdin_wait_message(message: Option<&str>) -> (r: String)
    ensures
        message matches Some(m) ==> r@ == m@,
        message is None ==> r@ == "...awaiting data from STDIN stream..."@,
{
    match message {
        Some(m) => m.to_owned(),
        None => String::from_str("...awaiting data from STDIN stream..."),
    }
}

/// Drop the final character of a line read from the standard input stream
/// (the newline the read kept).
pub fn chop_trailing_char(input: &str) -> (r: String)
    requires
        input@.len() > 0,
    ensures
        r@ == input@.drop_last(),
{
    let n = input.unicode_len();
    let s = input.substring_char(0, n - 1);
    proof {
        assert(s@ =~= input@.drop_last());
    }
    s.to_owned()
}

/// Error text of a transaction identifier that did not parse.
pub open spec fn tx_id_error_text(e: ParseNumError) -> Seq<char> {
    match e {
        ParseNumError::Empty => "cannot parse integer from empty string. A valid TX Id is a number between 0 and 2^64"@,
        ParseNumError::InvalidDigit => "invalid digit found in string. A valid TX Id is a number between 0 and 2^64"@,
        ParseNumError::Overflow => "number too large to fit in target type. A valid TX Id is a number between 0 and 2^64"@,
    }
}

/// Parse a transaction identifier: a decimal number that fits in a `u64`.
/// A failure names, in its error text, whether the input was empty, held an
/// invalid digit, or was too large.
pub fn parse_tx_id(src: &str) -> (r: Result<u64, String>)
    ensures
        r is Ok <==> is_u64_numeral(src@),
        r is Ok ==> r->Ok_0 == dec_val(numeral_digits(src@)),
        src@.len() == 0 ==> (r matches Err(m) && m@ == tx_id_error_text(ParseNumError::Empty)),
        overflows_before_invalid(src@) ==> (r matches Err(m) && m@ == tx_id_error_text(
            ParseNumError::Overflow,
        )),
        (src@.len() > 0 && !overflows_before_invalid(src@) && !is_u64_numeral(src@)) ==> (r
            matches Err(m) && m@ == tx_id_error_text(ParseNumError::InvalidDigit)),
{
    match parse_u64_numeral(src) {
        Ok(v) => Ok(v),
        Err(ParseNumError::Empty) => Err(
            String::from_str(
                "cannot parse integer from empty string. A valid TX Id is a number between 0 and 2^64",
            ),
        ),
        Err(ParseNumError::InvalidDigit) => Err(
            String::from_str(
                "invalid digit found in string. A valid TX Id is a number between 0 and 2^64",
            ),
        ),
        Err(ParseNumError::Overflow) => Err(
            String::from_str(
                "number too large to fit in target type. A valid TX Id is a number between 0 and 2^64",
            ),
        ),
    }
}

} // verus!
