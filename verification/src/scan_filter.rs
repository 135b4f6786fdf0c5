//! The filter that a scan is started with, in the form that the host takes.

use vstd::arithmetic::power::pow;
use vstd::prelude::*;

verus! {

/// The services that a scan is restricted to. An empty list restricts nothing.
#[derive(Clone, Debug, PartialEq, Eq)]
pub struct ScanFilter {
    pub services: Vec<u128>,
}

/// The lower-case hexadecimal digit of a value below sixteen.
pub open spec fn lower_hex_digit(value: int) -> char {
    if value < 10 {
        ('0' as int + value) as char
    } else {
        ('a' as int + value - 10) as char
    }
}

/// The hexadecimal digit of `uuid` at `place`, where place 0 is the most
/// significant of its 32 digits.
pub open spec fn digit_at(uuid: u128, place: int) -> int {
    (uuid as int / pow(16, (31 - place) as nat)) % 16
}

/// The place of the digit that stands at position `i` of the hyphenated text.
pub open spec fn place_of(i: int) -> int {
    if i < 8 {
        i
    } else if i < 13 {
        i - 1
    } else if i < 18 {
        i - 2
    } else if i < 23 {
        i - 3
    } else {
        i - 4
    }
}

/// The hyphenated lower-case text of a UUID: 32 digits in groups of 8, 4, 4,
/// 4 and 12, with a hyphen between the groups.
pub open spec fn uuid_text(uuid: u128) -> Seq<char> {
    Seq::new(
        36,
        |i: int|
            if i == 8 || i == 13 || i == 18 || i == 23 {
                '-'
            } else {
                lower_hex_digit(digit_at(uuid, place_of(i)))
            },
    )
}

/// The text of a UUID, by `Uuid::to_string` of the `uuid` crate on the UUID
/// that `Uuid::from_u128` makes of the value.
///
/// Taken on trust: the text is the hyphenated lower-case form, whose digits
/// are those of the value, the most significant first.
#[verifier::external_body]
fn uuid_to_string(uuid: u128) -> (res: String)
    ensures
        res@ == uuid_text(uuid),
{
    uuid::Uuid::from_u128(uuid).to_string()
}

/// The services of a filter as the texts that the host's filter takes, in the
/// order of the filter.
pub fn service_strings(filter: &ScanFilter) -> (res: Vec<String>)
    ensures
        res@.len() == filter.services@.len(),
        forall|i: int|
            0 <= i < res@.len() ==> (#[trigger] res@[i])@ == uuid_text(filter.services@[i]),
{
    let mut texts: Vec<String> = Vec::new();
    let mut i: usize = 0;
    while i < filter.services.len()
        invariant
            i <= filter.services.len(),
            texts@.len() == i,
            forall|j: int| 0 <= j < i ==> (#[trigger] texts@[j])@ == uuid_text(filter.services@[j]),
        decreases filter.services.len() - i,
    {
        texts.push(uuid_to_string(filter.services[i]));
        i = i + 1;
    }
    texts
}

} // verus!
