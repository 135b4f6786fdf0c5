//! Device addresses and the peripheral identifier derived from them.

use crate::text::push_char;
use vstd::prelude::*;

verus! {

/// Why a text is no device address.
#[derive(Clone, Copy, Debug, PartialEq, Eq, Structural)]
pub enum ParseBDAddrError {
    /// The text does not have the length of six bytes in the form tried.
    IncorrectByteCount,
    /// The text has the right length, but a digit or a separator is wrong.
    InvalidDigit,
}

/// A Bluetooth device address: six bytes, the most significant first.
#[derive(Clone, Copy, Debug, Eq, Hash, PartialOrd, Ord)]
pub struct BDAddr {
    address: [u8; 6],
}

impl View for BDAddr {
    type V = Seq<u8>;

    open spec fn view(&self) -> Seq<u8> {
        self.into_inner_spec()@
    }
}

impl PartialEq for BDAddr {
    fn eq(&self, other: &Self) -> (res: bool) {
        let mut i: usize = 0;
        while i < 6
            invariant
                i <= 6,
                forall|j: int| 0 <= j < i ==> self.address[j] == other.address[j],
            decreases 6 - i,
        {
            if self.address[i] != other.address[i] {
                return false;
            }
            i = i + 1;
        }
        assert(self.address@ =~= other.address@);
        true
    }
}

impl vstd::std_specs::cmp::PartialEqSpecImpl for BDAddr {
    open spec fn obeys_eq_spec() -> bool {
        true
    }

    open spec fn eq_spec(&self, other: &Self) -> bool {
        self@ == other@
    }
}

/// The value of a hexadecimal digit of either case.
pub open spec fn hex_value(c: char) -> Option<u8> {
    if '0' <= c <= '9' {
        Some((c as u32 - '0' as u32) as u8)
    } else if 'a' <= c <= 'f' {
        Some((c as u32 - 'a' as u32 + 10) as u8)
    } else if 'A' <= c <= 'F' {
        Some((c as u32 - 'A' as u32 + 10) as u8)
    } else {
        None
    }
}

/// The upper-case hexadecimal digit of a value below sixteen.
pub open spec fn upper_hex_digit(value: u8) -> char {
    if value < 10 {
        ('0' as u8 + value) as char
    } else {
        ('A' as u8 + value - 10) as char
    }
}

/// The byte that two hexadecimal digits write, the high digit first.
pub open spec fn byte_of_digits(high: char, low: char) -> u8 {
    (hex_value(high).unwrap() * 16 + hex_value(low).unwrap()) as u8
}

/// Six groups of two hexadecimal digits with a colon between neighbours.
pub open spec fn is_delimited_form(text: Seq<char>) -> bool {
    &&& text.len() == 17
    &&& forall|i: int|
        0 <= i < 17 ==> if i % 3 == 2 {
            #[trigger] text[i] == ':'
        } else {
            hex_value(text[i]) is Some
        }
}

/// Twelve hexadecimal digits.
pub open spec fn is_plain_form(text: Seq<char>) -> bool {
    &&& text.len() == 12
    &&& forall|i: int| 0 <= i < 12 ==> hex_value(#[trigger] text[i]) is Some
}

/// The bytes that six digit pairs write, where pair `i` starts at `stride * i`.
pub open spec fn bytes_of_text(text: Seq<char>, stride: int) -> Seq<u8> {
    Seq::new(6, |i: int| byte_of_digits(text[stride * i], text[stride * i + 1]))
}

/// The address that a text writes, in either form, if it writes one.
pub open spec fn address_of_text(text: Seq<char>) -> Option<Seq<u8>> {
    if is_delimited_form(text) {
        Some(bytes_of_text(text, 3))
    } else if is_plain_form(text) {
        Some(bytes_of_text(text, 2))
    } else {
        None
    }
}

/// Why a text that writes no address is refused: for its length, if that is
/// the length of neither form, else for a character.
pub open spec fn address_error_of(text: Seq<char>) -> ParseBDAddrError {
    if text.len() != 17 && text.len() != 12 {
        ParseBDAddrError::IncorrectByteCount
    } else {
        ParseBDAddrError::InvalidDigit
    }
}

/// The upper-case text of an address: six digit pairs with colons between.
pub open spec fn text_of_bytes(bytes: Seq<u8>) -> Seq<char> {
    Seq::new(
        17,
        |i: int|
            if i % 3 == 2 {
                ':'
            } else if i % 3 == 0 {
                upper_hex_digit(bytes[i / 3] / 16)
            } else {
                upper_hex_digit(bytes[i / 3] % 16)
            },
    )
}

fn hex_digit(c: char) -> (res: Option<u8>)
    ensures
        res == hex_value(c),
        res matches Some(v) ==> v < 16,
{
    if '0' <= c && c <= '9' {
        Some((c as u32 - '0' as u32) as u8)
    } else if 'a' <= c && c <= 'f' {
        Some((c as u32 - 'a' as u32 + 10) as u8)
    } else if 'A' <= c && c <= 'F' {
        Some((c as u32 - 'A' as u32 + 10) as u8)
    } else {
        None
    }
}

fn upper_digit(value: u8) -> (res: char)
    requires
        value < 16,
    ensures
        res == upper_hex_digit(value),
        hex_value(res) == Some(value),
{
    if value < 10 {
        ('0' as u8 + value) as char
    } else {
        ('A' as u8 + value - 10) as char
    }
}

fn chars_of(text: &str) -> (res: Vec<char>)
    ensures
        res@ == text@,
{
    let mut chars: Vec<char> = Vec::new();
    for c in it: text.chars()
        invariant
            it.seq() == text@,
            chars@ == text@.take(it.index() as int),
    {
        chars.push(c);
        assert(text@.take(it.index() + 1) == text@.take(it.index() as int).push(c));
    }
    assert(text@.take(text@.len() as int) == text@);
    chars
}

fn parse_pairs(chars: &Vec<char>, stride: usize) -> (res: Option<BDAddr>)
    requires
        stride == 2 || stride == 3,
        chars.len() >= stride * 5 + 2,
    ensures
        res is Some <==> forall|i: int|
            0 <= i < 6 ==> hex_value(#[trigger] chars[stride * i]) is Some && hex_value(
                chars[stride * i + 1],
            ) is Some,
        res matches Some(addr) ==> addr@ == bytes_of_text(chars@, stride as int),
{
    let mut address: [u8; 6] = [0, 0, 0, 0, 0, 0];
    let mut i: usize = 0;
    while i < 6
        invariant
            i <= 6,
            stride == 2 || stride == 3,
            chars.len() >= stride * 5 + 2,
            forall|j: int|
                0 <= j < i ==> hex_value(#[trigger] chars[stride * j]) is Some && hex_value(
                    chars[stride * j + 1],
                ) is Some,
            forall|j: int|
                0 <= j < i ==> address[j] == byte_of_digits(
                    #[trigger] chars[stride * j],
                    chars[stride * j + 1],
                ),
        decreases 6 - i,
    {
        let high = hex_digit(chars[stride * i]);
        let low = hex_digit(chars[stride * i + 1]);
        match (high, low) {
            (Some(h), Some(l)) => {
                address[i] = h * 16 + l;
            },
            _ => {
                return None;
            },
        }
        i = i + 1;
    }
    let addr = BDAddr { address };
    assert(addr@ =~= bytes_of_text(chars@, stride as int));
    Some(addr)
}

impl BDAddr {
    /// The bytes of the address as a value of the specification.
    pub closed spec fn into_inner_spec(&self) -> [u8; 6] {
        self.address
    }

    /// The address with the given bytes.
    pub fn from_bytes(address: [u8; 6]) -> (res: Self)
        ensures
            res@ == address@,
    {
        BDAddr { address }
    }

    /// The bytes of the address.
    #[verifier::when_used_as_spec(into_inner_spec)]
    pub fn into_inner(&self) -> (res: [u8; 6])
        ensures
            res == self.into_inner_spec(),
            res@ == self@,
    {
        self.address
    }

    /// Reads an address written as six colon-separated pairs of hexadecimal
    /// digits, such as `00:11:22:AA:BB:CC`.
    pub fn from_str_delim(text: &str) -> (res: Result<Self, ParseBDAddrError>)
        ensures
            res is Ok <==> is_delimited_form(text@),
            res matches Ok(addr) ==> addr@ == bytes_of_text(text@, 3),
            res matches Err(e) ==> (e == ParseBDAddrError::IncorrectByteCount <==> text@.len()
                != 17),
    {
        let chars = chars_of(text);
        if chars.len() != 17 {
            return Err(ParseBDAddrError::IncorrectByteCount);
        }
        let mut i: usize = 0;
        while i < 5
            invariant
                i <= 5,
                chars@ == text@,
                chars@.len() == 17,
                forall|j: int| 0 <= j < i ==> #[trigger] chars[3 * j + 2] == ':',
            decreases 5 - i,
        {
            if chars[3 * i + 2] != ':' {
                assert(!is_delimited_form(chars@)) by {
                    if is_delimited_form(chars@) {
                        assert(chars@[3 * i + 2] == ':');
                    }
                }
                return Err(ParseBDAddrError::InvalidDigit);
            }
            i = i + 1;
        }
        match parse_pairs(&chars, 3) {
            Some(addr) => {
                assert(is_delimited_form(chars@)) by {
                    assert forall|k: int| 0 <= k < 17 implies if k % 3 == 2 {
                        #[trigger] chars@[k] == ':'
                    } else {
                        hex_value(chars@[k]) is Some
                    } by {
                        let j = k / 3;
                        if k % 3 == 2 {
                            assert(chars[3 * j + 2] == ':');
                        } else {
                            assert(hex_value(chars[3 * j]) is Some);
                        }
                    }
                }
                Ok(addr)
            },
            None => {
                assert(!is_delimited_form(chars@)) by {
                    if is_delimited_form(chars@) {
                        assert forall|j: int| 0 <= j < 6 implies hex_value(
                            #[trigger] chars[3 * j],
                        ) is Some && hex_value(chars[3 * j + 1]) is Some by {
                            assert(hex_value(chars@[3 * j]) is Some);
                            assert(hex_value(chars@[3 * j + 1]) is Some);
                        }
                    }
                }
                Err(ParseBDAddrError::InvalidDigit)
            },
        }
    }

    /// Reads an address written as twelve hexadecimal digits, such as
    /// `001122AABBCC`.
    pub fn from_str_no_delim(text: &str) -> (res: Result<Self, ParseBDAddrError>)
        ensures
            res is Ok <==> is_plain_form(text@),
            res matches Ok(addr) ==> addr@ == bytes_of_text(text@, 2),
            res matches Err(e) ==> (e == ParseBDAddrError::IncorrectByteCount <==> text@.len()
                != 12),
    {
        let chars = chars_of(text);
        if chars.len() != 12 {
            return Err(ParseBDAddrError::IncorrectByteCount);
        }
        match parse_pairs(&chars, 2) {
            Some(addr) => {
                assert(is_plain_form(chars@)) by {
                    assert forall|k: int| 0 <= k < 12 implies hex_value(
                        #[trigger] chars@[k],
                    ) is Some by {
                        let j = k / 2;
                        assert(hex_value(chars[2 * j]) is Some);
                    }
                }
                Ok(addr)
            },
            None => {
                assert(!is_plain_form(chars@)) by {
                    if is_plain_form(chars@) {
                        assert forall|j: int| 0 <= j < 6 implies hex_value(
                            #[trigger] chars[2 * j],
                        ) is Some && hex_value(chars[2 * j + 1]) is Some by {
                            assert(hex_value(chars@[2 * j]) is Some);
                            assert(hex_value(chars@[2 * j + 1]) is Some);
                        }
                    }
                }
                Err(ParseBDAddrError::InvalidDigit)
            },
        }
    }

    /// Reads an address in either written form.
    pub fn from_str(text: &str) -> (res: Result<Self, ParseBDAddrError>)
        ensures
            match res {
                Ok(addr) => address_of_text(text@) == Some(addr@),
                Err(e) => address_of_text(text@) is None && e == address_error_of(text@),
            },
    {
        if text.unicode_len() == 17 {
            Self::from_str_delim(text)
        } else {
            Self::from_str_no_delim(text)
        }
    }

    /// The address as upper-case text with colons, such as `00:11:22:AA:BB:CC`.
    pub fn to_string(&self) -> (res: String)
        ensures
            res@ == text_of_bytes(self@),
    {
        let mut text = String::new();
        let mut i: usize = 0;
        while i < 6
            invariant
                i <= 6,
                text@.len() == (if i == 0 {
                    0int
                } else {
                    3 * i - 1
                }),
                forall|k: int| 0 <= k < text@.len() ==> text@[k] == text_of_bytes(self@)[k],
            decreases 6 - i,
        {
            if i > 0 {
                push_char(&mut text, ':');
            }
            let byte = self.address[i];
            push_char(&mut text, upper_digit(byte / 16));
            push_char(&mut text, upper_digit(byte % 16));
            i = i + 1;
        }
        assert(text@ =~= text_of_bytes(self@));
        text
    }
}

/// The text of an address reads back as the same address.
pub proof fn lemma_text_reads_back(addr: BDAddr)
    ensures
        is_delimited_form(text_of_bytes(addr@)),
        bytes_of_text(text_of_bytes(addr@), 3) == addr@,
{
    let text = text_of_bytes(addr@);
    assert forall|v: u8| v < 16 implies hex_value(#[trigger] upper_hex_digit(v)) == Some(v) by {}
    assert forall|i: int| 0 <= i < 17 implies if i % 3 == 2 {
        #[trigger] text[i] == ':'
    } else {
        hex_value(text[i]) is Some
    } by {
        if i % 3 != 2 {
            let b = addr@[i / 3];
            assert(hex_value(upper_hex_digit(b / 16)) == Some(b / 16));
            assert(hex_value(upper_hex_digit(b % 16)) == Some(b % 16));
        }
    }
    assert forall|i: int| 0 <= i < 6 implies #[trigger] bytes_of_text(text, 3)[i] == addr@[i] by {
        let b = addr@[i];
        assert((3 * i) % 3 == 0 && (3 * i) / 3 == i);
        assert((3 * i + 1) % 3 == 1 && (3 * i + 1) / 3 == i);
        assert(text[3 * i] == upper_hex_digit(b / 16));
        assert(text[3 * i + 1] == upper_hex_digit(b % 16));
        assert(hex_value(upper_hex_digit(b / 16)) == Some(b / 16));
        assert(hex_value(upper_hex_digit(b % 16)) == Some(b % 16));
    }
    assert(addr@.len() == 6);
    assert(bytes_of_text(text, 3) =~= addr@);
}

} // verus!
