//! Session tokens: the keys of sessions that are not named after a device.
//!
//! A token is a number of 128 bits that the session manager counts up, so
//! that no two sessions of a manager ever share one and none comes back
//! after its session was closed. Callers hold a token as text: 32
//! hexadecimal digits, most significant first, in lower case. Any other text
//! is not a token.

use crate::error::Error;
use vstd::prelude::*;
use vstd::string::{StrSliceExecFns, StringExecFns};

verus! {

/// The number of characters of a token.
pub const TOKEN_LEN: usize = 32;

/// The hexadecimal digit, in lower case, for a value below 16. Larger
/// values do not occur; they are given the last digit.
pub open spec fn hex_char(digit: u128) -> char {
    if digit == 0 {
        '0'
    } else if digit == 1 {
        '1'
    } else if digit == 2 {
        '2'
    } else if digit == 3 {
        '3'
    } else if digit == 4 {
        '4'
    } else if digit == 5 {
        '5'
    } else if digit == 6 {
        '6'
    } else if digit == 7 {
        '7'
    } else if digit == 8 {
        '8'
    } else if digit == 9 {
        '9'
    } else if digit == 10 {
        'a'
    } else if digit == 11 {
        'b'
    } else if digit == 12 {
        'c'
    } else if digit == 13 {
        'd'
    } else if digit == 14 {
        'e'
    } else {
        'f'
    }
}

/// The four bits of `value` that its text shows at `place`, counted from
/// the left.
pub open spec fn nibble(value: u128, place: int) -> u128
    recommends
        0 <= place < 32,
{
    (value >> ((124 - 4 * place) as u128)) & 0xf
}

/// The text of a token.
pub open spec fn token_text(value: u128) -> Seq<char> {
    Seq::new(32, |place: int| hex_char(nibble(value, place)))
}

/// Whether `text` is the text of a token.
pub open spec fn is_token(text: Seq<char>) -> bool {
    exists|value: u128| text == #[trigger] token_text(value)
}

/// What reading `text` as a token gives: the one token with that text, or
/// `HidDeviceUuidInvalidFormat` where there is none.
pub open spec fn parse_of(text: Seq<char>) -> Result<u128, Error> {
    if is_token(text) {
        Ok(choose|value: u128| text == #[trigger] token_text(value))
    } else {
        Err(Error::HidDeviceUuidInvalidFormat)
    }
}

proof fn lemma_nibble_small(value: u128, shift: u128)
    ensures
        (value >> shift) & 0xf < 16,
{
    assert((value >> shift) & 0xf < 16) by (bit_vector);
}

proof fn lemma_hex_char_distinct(one: u128, other: u128)
    requires
        one < 16,
        other < 16,
        hex_char(one) == hex_char(other),
    ensures
        one == other,
{
}

proof fn lemma_place(a: u128, b: u128, place: int)
    requires
        0 <= place < 32,
        token_text(a) == token_text(b),
    ensures
        nibble(a, place) == nibble(b, place),
{
    assert(token_text(a)[place] == hex_char(nibble(a, place)));
    assert(token_text(b)[place] == hex_char(nibble(b, place)));
    lemma_nibble_small(a, (124 - 4 * place) as u128);
    lemma_nibble_small(b, (124 - 4 * place) as u128);
    lemma_hex_char_distinct(nibble(a, place), nibble(b, place));
}

proof fn lemma_nibbles_decide(a: u128, b: u128)
    by (bit_vector)
    requires
            (a >> 124) & 0xf == (b >> 124) & 0xf,
            (a >> 120) & 0xf == (b >> 120) & 0xf,
            (a >> 116) & 0xf == (b >> 116) & 0xf,
            (a >> 112) & 0xf == (b >> 112) & 0xf,
            (a >> 108) & 0xf == (b >> 108) & 0xf,
            (a >> 104) & 0xf == (b >> 104) & 0xf,
            (a >> 100) & 0xf == (b >> 100) & 0xf,
            (a >> 96) & 0xf == (b >> 96) & 0xf,
            (a >> 92) & 0xf == (b >> 92) & 0xf,
            (a >> 88) & 0xf == (b >> 88) & 0xf,
            (a >> 84) & 0xf == (b >> 84) & 0xf,
            (a >> 80) & 0xf == (b >> 80) & 0xf,
            (a >> 76) & 0xf == (b >> 76) & 0xf,
            (a >> 72) & 0xf == (b >> 72) & 0xf,
            (a >> 68) & 0xf == (b >> 68) & 0xf,
            (a >> 64) & 0xf == (b >> 64) & 0xf,
            (a >> 60) & 0xf == (b >> 60) & 0xf,
            (a >> 56) & 0xf == (b >> 56) & 0xf,
            (a >> 52) & 0xf == (b >> 52) & 0xf,
            (a >> 48) & 0xf == (b >> 48) & 0xf,
            (a >> 44) & 0xf == (b >> 44) & 0xf,
            (a >> 40) & 0xf == (b >> 40) & 0xf,
            (a >> 36) & 0xf == (b >> 36) & 0xf,
            (a >> 32) & 0xf == (b >> 32) & 0xf,
            (a >> 28) & 0xf == (b >> 28) & 0xf,
            (a >> 24) & 0xf == (b >> 24) & 0xf,
            (a >> 20) & 0xf == (b >> 20) & 0xf,
            (a >> 16) & 0xf == (b >> 16) & 0xf,
            (a >> 12) & 0xf == (b >> 12) & 0xf,
            (a >> 8) & 0xf == (b >> 8) & 0xf,
            (a >> 4) & 0xf == (b >> 4) & 0xf,
            (a >> 0) & 0xf == (b >> 0) & 0xf,
    ensures
        a == b,
{
}

/// Two tokens with the same text are the same token.
pub proof fn law_token_text_injective(a: u128, b: u128)
    requires
        token_text(a) == token_text(b),
    ensures
        a == b,
{
    lemma_place(a, b, 0);
    lemma_place(a, b, 1);
    lemma_place(a, b, 2);
    lemma_place(a, b, 3);
    lemma_place(a, b, 4);
    lemma_place(a, b, 5);
    lemma_place(a, b, 6);
    lemma_place(a, b, 7);
    lemma_place(a, b, 8);
    lemma_place(a, b, 9);
    lemma_place(a, b, 10);
    lemma_place(a, b, 11);
    lemma_place(a, b, 12);
    lemma_place(a, b, 13);
    lemma_place(a, b, 14);
    lemma_place(a, b, 15);
    lemma_place(a, b, 16);
    lemma_place(a, b, 17);
    lemma_place(a, b, 18);
    lemma_place(a, b, 19);
    lemma_place(a, b, 20);
    lemma_place(a, b, 21);
    lemma_place(a, b, 22);
    lemma_place(a, b, 23);
    lemma_place(a, b, 24);
    lemma_place(a, b, 25);
    lemma_place(a, b, 26);
    lemma_place(a, b, 27);
    lemma_place(a, b, 28);
    lemma_place(a, b, 29);
    lemma_place(a, b, 30);
    lemma_place(a, b, 31);
    lemma_nibbles_decide(a, b);
}

/// Reading the text of a token gives the token back.
pub proof fn law_parse_format(value: u128)
    ensures
        parse_of(token_text(value)) == Ok::<u128, Error>(value),
{
    let text = token_text(value);
    assert(is_token(text));
    let found = choose|found: u128| text == #[trigger] token_text(found);
    law_token_text_injective(found, value);
}

/// Text that is no token is refused, and text that is one names exactly
/// one.
pub proof fn law_parse_decides(text: Seq<char>)
    ensures
        match parse_of(text) {
            Ok(value) => text == token_text(value),
            Err(error) => error == Error::HidDeviceUuidInvalidFormat && forall|value: u128|
                text != #[trigger] token_text(value),
        },
{
}

/// The digit for a value below 16, as a string of one character.
fn hex_str(digit: u128) -> (text: &'static str)
    requires
        digit < 16,
    ensures
        text@ == seq![hex_char(digit)],
{
    match digit {
        0 => {
            proof {
                reveal_strlit("0");
            }
            "0"
        },
        1 => {
            proof {
                reveal_strlit("1");
            }
            "1"
        },
        2 => {
            proof {
                reveal_strlit("2");
            }
            "2"
        },
        3 => {
            proof {
                reveal_strlit("3");
            }
            "3"
        },
        4 => {
            proof {
                reveal_strlit("4");
            }
            "4"
        },
        5 => {
            proof {
                reveal_strlit("5");
            }
            "5"
        },
        6 => {
            proof {
                reveal_strlit("6");
            }
            "6"
        },
        7 => {
            proof {
                reveal_strlit("7");
            }
            "7"
        },
        8 => {
            proof {
                reveal_strlit("8");
            }
            "8"
        },
        9 => {
            proof {
                reveal_strlit("9");
            }
            "9"
        },
        10 => {
            proof {
                reveal_strlit("a");
            }
            "a"
        },
        11 => {
            proof {
                reveal_strlit("b");
            }
            "b"
        },
        12 => {
            proof {
                reveal_strlit("c");
            }
            "c"
        },
        13 => {
            proof {
                reveal_strlit("d");
            }
            "d"
        },
        14 => {
            proof {
                reveal_strlit("e");
            }
            "e"
        },
        _ => {
            proof {
                reveal_strlit("f");
            }
            "f"
        },
    }
}

/// The value of a hexadecimal digit in lower case.
fn hex_value(c: char) -> (value: Option<u128>)
    ensures
        match value {
            Some(digit) => digit < 16 && c == hex_char(digit),
            None => forall|digit: u128| c != #[trigger] hex_char(digit),
        },
{
    match c {
        '0' => Some(0),
        '1' => Some(1),
        '2' => Some(2),
        '3' => Some(3),
        '4' => Some(4),
        '5' => Some(5),
        '6' => Some(6),
        '7' => Some(7),
        '8' => Some(8),
        '9' => Some(9),
        'a' => Some(10),
        'b' => Some(11),
        'c' => Some(12),
        'd' => Some(13),
        'e' => Some(14),
        'f' => Some(15),
        _ => None,
    }
}

/// The text of a token: 32 hexadecimal digits in lower case.
pub fn format_token(value: u128) -> (text: String)
    ensures
        text@ == token_text(value),
{
    let mut text = String::new();
    let mut place: u128 = 0;
    while place < 32
        invariant
            place <= 32,
            text@ == Seq::new(place as nat, |p: int| hex_char(nibble(value, p))),
        decreases 32 - place,
    {
        let shift: u128 = 124 - 4 * place;
        let digit = (value >> shift) & 0xf;
        proof {
            lemma_nibble_small(value, shift);
        }
        text.append(hex_str(digit));
        place += 1;
        assert(text@ =~= Seq::new(place as nat, |p: int| hex_char(nibble(value, p))));
    }
    text
}

proof fn lemma_step(value: u128, digit: u128, shift: u128, above: u128)
    by (bit_vector)
    requires
        value >> 124 == 0,
        digit < 16,
        shift <= 120,
        above == shift + 4,
    ensures
        (((value << 4) | digit) >> above) & 0xf == (value >> shift) & 0xf,
        (((value << 4) | digit) >> 0) & 0xf == digit,
{
}

proof fn lemma_room(value: u128, digit: u128, used: u128, above: u128)
    by (bit_vector)
    requires
        used <= 124,
        value >> used == 0,
        digit < 16,
        above == used + 4,
    ensures
        value >> 124 == 0,
        above < 128 ==> ((value << 4) | digit) >> above == 0,
{
}

/// Reads `text` as a token. Fails with `HidDeviceUuidInvalidFormat` unless
/// `text` is exactly the text of a token.
pub fn parse_token(text: &str) -> (parsed: Result<u128, Error>)
    ensures
        parsed == parse_of(text@),
{
    if text.unicode_len() != TOKEN_LEN {
        assert forall|value: u128| text@ != #[trigger] token_text(value) by {
            assert(token_text(value).len() == 32);
        }
        return Err(Error::HidDeviceUuidInvalidFormat);
    }
    let mut value: u128 = 0;
    let mut place: usize = 0;
    assert(value >> 0 == 0) by (bit_vector)
        requires
            value == 0,
    ;
    while place < TOKEN_LEN
        invariant
            place <= 32,
            text@.len() == 32,
            place < 32 ==> value >> ((4 * place) as u128) == 0,
            forall|p: int|
                0 <= p < place ==> text@[p] == hex_char(
                    #[trigger] (value >> ((4 * (place - 1 - p)) as u128)) & 0xf,
                ),
        decreases 32 - place,
    {
        let c = text.get_char(place);
        match hex_value(c) {
            None => {
                assert forall|found: u128| text@ != #[trigger] token_text(found) by {
                    assert(token_text(found)[place as int] == hex_char(nibble(found, place as int)));
                }
                return Err(Error::HidDeviceUuidInvalidFormat);
            },
            Some(digit) => {
                let ghost before = value;
                proof {
                    lemma_room(before, digit, (4 * place) as u128, (4 * place + 4) as u128);
                }
                value = (value << 4) | digit;
                proof {
                    assert forall|p: int| 0 <= p < place + 1 implies text@[p] == hex_char(
                        #[trigger] (value >> ((4 * (place + 1 - 1 - p)) as u128)) & 0xf,
                    ) by {
                        if p < place {
                            lemma_step(
                                before,
                                digit,
                                (4 * (place - 1 - p)) as u128,
                                (4 * (place - p)) as u128,
                            );
                        } else {
                            lemma_step(before, digit, 0, 4);
                        }
                    }
                }
                place += 1;
            },
        }
    }
    proof {
        assert forall|p: int| 0 <= p < 32 implies text@[p] == token_text(value)[p] by {
            let shift = (4 * (32 - 1 - p)) as u128;
            assert(shift == (124 - 4 * p) as u128);
            assert(text@[p] == hex_char((value >> shift) & 0xf));
        }
        assert(text@ =~= token_text(value));
        law_parse_format(value);
    }
    Ok(value)
}

/// Counts the tokens of one session manager.
pub struct TokenSource {
    issued: u128,
}

impl TokenSource {
    /// The number of tokens issued so far. The tokens issued are the
    /// numbers below it.
    pub closed spec fn issued(&self) -> u128 {
        self.issued
    }

    /// A source that has issued no token yet.
    pub fn new() -> (source: Self)
        ensures
            source.issued() == 0,
    {
        TokenSource { issued: 0 }
    }

    /// Whether all tokens are spent: the count has reached the largest
    /// number of 128 bits.
    pub fn exhausted(&self) -> (spent: bool)
        ensures
            spent == (self.issued() == u128::MAX),
    {
        self.issued == u128::MAX
    }

    /// The next token, which no earlier call has returned. The source must
    /// not be exhausted.
    pub fn take(&mut self) -> (value: u128)
        requires
            old(self).issued() < u128::MAX,
        ensures
            value == old(self).issued(),
            final(self).issued() == value + 1,
    {
        let value = self.issued;
        self.issued = value + 1;
        value
    }

    /// The next token, which no earlier call has returned; `None` when all
    /// tokens are spent, and then nothing changes.
    pub fn issue(&mut self) -> (token: Option<u128>)
        ensures
            match token {
                Some(value) => value == old(self).issued() && final(self).issued() == value + 1,
                None => old(self).issued() == u128::MAX && final(self).issued() == u128::MAX,
            },
    {
        if self.exhausted() {
            None
        } else {
            Some(self.take())
        }
    }
}

/// No token is issued twice: of two tokens from one source the later is the
/// larger, and their texts differ.
pub proof fn law_tokens_distinct(earlier: u128, later: u128)
    requires
        earlier < later,
    ensures
        token_text(earlier) != token_text(later),
{
    if token_text(earlier) == token_text(later) {
        law_token_text_injective(earlier, later);
    }
}

} // verus!
