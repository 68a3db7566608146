//! Hardware addresses: their text form, read and written.

use crate::errors::{MacAddressError, MacFault};
use crate::hex::{
    ascii_lowercase, hex_char, hex_digit_char, hex_digit_value, hex_val, is_hex_digit,
    lemma_digit_of_value, lemma_value_of_digit,
};
use crate::text::{lemma_trimmed_is_identity, trimmed};
use vstd::prelude::*;
use vstd::std_specs::iter::IteratorSpec;

verus! {

/// Whether `c` may stand between two groups of an address.
pub open spec fn is_separator(c: char) -> bool {
    c == ':' || c == '-' || c == '_' || c == '.'
}

/// Whether `t` is six groups of two hexadecimal digits with one separator
/// between neighbours, and nothing else.
pub open spec fn is_mac_text(t: Seq<char>) -> bool {
    &&& t.len() == 17
    &&& forall|k: int| 0 <= k < 6 ==> is_hex_digit(#[trigger] t[3 * k]) && is_hex_digit(t[3 * k + 1])
    &&& forall|k: int| 0 <= k < 5 ==> is_separator(#[trigger] t[3 * k + 2])
}

/// What is wrong with group `k` of `t`, where the groups before it are
/// sound: a digit or the separator behind the group is missing or is
/// another character.
pub open spec fn group_fault(t: Seq<char>, k: int) -> Option<MacFault> {
    let p = 3 * k;
    if t.len() < p + 2 {
        Some(MacFault::InvalidMacAddress(t))
    } else if !is_hex_digit(t[p]) {
        Some(MacFault::InvalidByteInMac(seq![t[p]]))
    } else if !is_hex_digit(t[p + 1]) {
        Some(MacFault::InvalidByteInMac(seq![t[p + 1]]))
    } else if k < 5 && (t.len() < p + 3 || !is_separator(t[p + 2])) {
        Some(MacFault::InvalidMacAddress(t))
    } else {
        None
    }
}

/// The fault of the first unsound group of `t` from group `k` on; where all
/// six are sound, the fault of having text left behind them.
pub open spec fn first_fault(t: Seq<char>, k: int) -> Option<MacFault>
    decreases 6 - k,
{
    if k >= 6 {
        if t.len() > 17 {
            Some(MacFault::InvalidMacAddress(t))
        } else {
            None
        }
    } else if group_fault(t, k) is Some {
        group_fault(t, k)
    } else {
        first_fault(t, k + 1)
    }
}

/// The byte that group `k` of `t` writes.
pub open spec fn group_byte(t: Seq<char>, k: int) -> u8 {
    (16 * hex_digit_value(t[3 * k]) + hex_digit_value(t[3 * k + 1])) as u8
}

/// What reading `s` as an address gives: its six bytes, or the first thing
/// that is wrong with it. White space around the address is ignored.
pub open spec fn parse_mac(s: Seq<char>) -> Result<Seq<u8>, MacFault> {
    let t = trimmed(s);
    match first_fault(t, 0) {
        Some(fault) => Err(fault),
        None => Ok(Seq::new(6, |k: int| group_byte(t, k))),
    }
}

/// The character at place `j` of the text form of `mac`.
pub open spec fn format_char(mac: Seq<u8>, upper: bool, j: int) -> char {
    if j % 3 == 2 {
        ':'
    } else if j % 3 == 0 {
        hex_digit_char(mac[j / 3] as int / 16, upper)
    } else {
        hex_digit_char(mac[j / 3] as int % 16, upper)
    }
}

/// The text form of `mac`: six groups of two digits joined by `:`.
pub open spec fn format_mac(mac: Seq<u8>, upper: bool) -> Seq<char> {
    Seq::new(17, |j: int| format_char(mac, upper, j))
}

/// An address text with its digits in lower case and `:` for each
/// separator.
pub open spec fn canonical(t: Seq<char>) -> Seq<char> {
    Seq::new(
        t.len(),
        |j: int|
            if j % 3 == 2 {
                ':'
            } else {
                ascii_lowercase(t[j])
            },
    )
}

/// `t` with each of `A-Z` in lower case.
pub open spec fn lowercase(t: Seq<char>) -> Seq<char> {
    Seq::new(t.len(), |j: int| ascii_lowercase(t[j]))
}

/// How many characters are read once `k` groups are.
spec fn consumed(k: int) -> int {
    if k >= 6 {
        17
    } else {
        3 * k
    }
}

/// Represents a MAC address.
#[derive(Debug, Clone, Copy, PartialEq, Eq)]
pub struct Mac(pub [u8; 6]);

impl View for Mac {
    type V = Seq<u8>;

    open spec fn view(&self) -> Seq<u8> {
        self.0@
    }
}

impl Mac {
    /// Reads an address from text: six groups of two hexadecimal digits,
    /// separated by `:`, `-`, `_` or `.`, with any white space around them.
    pub fn from_str(s: &str) -> (r: Result<Mac, MacAddressError>)
        ensures
            match r {
                Ok(mac) => parse_mac(s@) == Ok::<Seq<u8>, MacFault>(mac@),
                Err(e) => parse_mac(s@) == Err::<Seq<u8>, MacFault>(e@),
            },
            r is Ok <==> is_mac_text(trimmed(s@)),
    {
        let t = s.trim();
        let mut bytes = [0u8;6];
        let mut chars = t.chars();
        let mut i: usize = 0;
        proof {
            lemma_sound_text(t@);
        }
        while i < 6
            invariant
                i <= 6,
                t@ == trimmed(s@),
                first_fault(t@, 0) is None <==> is_mac_text(t@),
                consumed(i as int) <= t@.len(),
                chars.remaining() == t@.skip(consumed(i as int)),
                first_fault(t@, 0) == first_fault(t@, i as int),
                forall|k: int| 0 <= k < i ==> bytes@[k] == group_byte(t@, k),
            decreases 6 - i,
        {
            let first = chars.next();
            let second = chars.next();
            let (c1, c2) = match (first, second) {
                (Some(c1), Some(c2)) => (c1, c2),
                _ => {
                    return Err(MacAddressError::InvalidMacAddress(t.to_owned()));
                },
            };
            let hi = match hex_val(c1) {
                Ok(v) => v,
                Err(e) => {
                    return Err(e);
                },
            };
            let lo = match hex_val(c2) {
                Ok(v) => v,
                Err(e) => {
                    return Err(e);
                },
            };
            assert((hi << 4) | lo == hi * 16 + lo) by (bit_vector)
                requires
                    hi < 16,
                    lo < 16,
            ;
            bytes[i] = (hi << 4) | lo;
            if i < 5 {
                match chars.next() {
                    Some(c) => {
                        if !(c == ':' || c == '-' || c == '_' || c == '.') {
                            return Err(MacAddressError::InvalidMacAddress(t.to_owned()));
                        }
                    },
                    None => {
                        return Err(MacAddressError::InvalidMacAddress(t.to_owned()));
                    },
                }
            }
            i = i + 1;
        }
        if chars.next().is_some() {
            return Err(MacAddressError::InvalidMacAddress(t.to_owned()));
        }
        assert(bytes@ =~= Seq::new(6, |k: int| group_byte(t@, k)));
        Ok(Mac(bytes))
    }

    /// The address in lower-case hexadecimal, as `xx:xx:xx:xx:xx:xx`.
    pub fn to_string(&self) -> (text: String)
        ensures
            text@ == format_mac(self@, false),
    {
        self.format(false)
    }

    /// The address in upper-case hexadecimal, as `XX:XX:XX:XX:XX:XX`.
    pub fn to_upper_hex(&self) -> (text: String)
        ensures
            text@ == format_mac(self@, true),
    {
        self.format(true)
    }

    /// The address as six groups of two hexadecimal digits joined by `:`.
    pub fn format(&self, upper: bool) -> (text: String)
        ensures
            text@ == format_mac(self@, upper),
    {
        let mut text = String::new();
        let mut i: usize = 0;
        while i < 6
            invariant
                i <= 6,
                text@.len() == (if i == 0 {
                    0
                } else {
                    3 * i - 1
                }),
                forall|j: int| 0 <= j < text@.len() ==> text@[j] == format_char(self@, upper, j),
            decreases 6 - i,
        {
            if i > 0 {
                text.push(':');
            }
            let b = self.0[i];
            text.push(hex_char(b / 16, upper));
            text.push(hex_char(b % 16, upper));
            i = i + 1;
        }
        text
    }
}

impl From<[u8; 6]> for Mac {
    fn from(value: [u8; 6]) -> (mac: Mac) {
        Mac(value)
    }
}

impl vstd::std_specs::convert::FromSpecImpl<[u8; 6]> for Mac {
    open spec fn obeys_from_spec() -> bool {
        true
    }

    open spec fn from_spec(value: [u8; 6]) -> Mac {
        Mac(value)
    }
}

impl TryFrom<&[u8]> for Mac {
    type Error = MacAddressError;

    fn try_from(value: &[u8]) -> (r: Result<Mac, MacAddressError>)
        ensures
            match r {
                Ok(mac) => value@.len() == 6 && mac@ == value@,
                Err(e) => value@.len() != 6 && e@ == MacFault::InvalidLength(value@.len()),
            },
    {
        if value.len() != 6 {
            return Err(MacAddressError::InvalidLength(value.len()));
        }
        let bytes = six_bytes(value);
        assert(bytes =~= (choose|bytes: [u8; 6]| bytes@ == value@));
        Ok(Mac(bytes))
    }
}

/// Copies a slice of six bytes into an array.
pub(crate) fn six_bytes(value: &[u8]) -> (bytes: [u8; 6])
    requires
        value@.len() == 6,
    ensures
        bytes@ == value@,
{
    let mut bytes = [0u8;6];
    let mut i: usize = 0;
    while i < 6
        invariant
            i <= 6,
            value@.len() == 6,
            forall|k: int| 0 <= k < i ==> bytes@[k] == value@[k],
        decreases 6 - i,
    {
        bytes[i] = value[i];
        i = i + 1;
    }
    bytes
}

impl vstd::std_specs::convert::TryFromSpecImpl<&[u8]> for Mac {
    open spec fn obeys_try_from_spec() -> bool {
        true
    }

    open spec fn try_from_spec(value: &[u8]) -> Result<Mac, MacAddressError> {
        if value@.len() == 6 {
            Ok(Mac(choose|bytes: [u8; 6]| bytes@ == value@))
        } else {
            Err(MacAddressError::InvalidLength(value@.len() as usize))
        }
    }
}

impl TryFrom<&str> for Mac {
    type Error = MacAddressError;

    fn try_from(value: &str) -> (r: Result<Mac, MacAddressError>)
        ensures
            match r {
                Ok(mac) => parse_mac(value@) == Ok::<Seq<u8>, MacFault>(mac@),
                Err(e) => parse_mac(value@) == Err::<Seq<u8>, MacFault>(e@),
            },
    {
        Mac::from_str(value)
    }
}

/// The error of this conversion holds a string, which no specification can
/// build: the contract of `try_from` itself says what comes back.
impl vstd::std_specs::convert::TryFromSpecImpl<&str> for Mac {
    open spec fn obeys_try_from_spec() -> bool {
        false
    }

    open spec fn try_from_spec(value: &str) -> Result<Mac, MacAddressError> {
        arbitrary()
    }
}

impl std::str::FromStr for Mac {
    type Err = MacAddressError;

    fn from_str(s: &str) -> (r: Result<Mac, MacAddressError>)
        ensures
            match r {
                Ok(mac) => parse_mac(s@) == Ok::<Seq<u8>, MacFault>(mac@),
                Err(e) => parse_mac(s@) == Err::<Seq<u8>, MacFault>(e@),
            },
    {
        Mac::from_str(s)
    }
}

/// A text has no fault exactly when it is six groups of two digits with
/// separators between them.
pub proof fn lemma_sound_text(t: Seq<char>)
    ensures
        first_fault(t, 0) is None <==> is_mac_text(t),
{
    reveal_with_fuel(first_fault, 7);
    if is_mac_text(t) {
        assert forall|k: int| 0 <= k < 6 implies group_fault(t, k) is None by {}
    }
}

/// Both characters of each group of an address text are digits.
proof fn lemma_group_digits(t: Seq<char>, k: int)
    requires
        is_mac_text(t),
        0 <= k < 6,
    ensures
        is_hex_digit(t[3 * k]),
        is_hex_digit(t[3 * k + 1]),
{
    assert(is_hex_digit(t[3 * k]));
}

/// Reading an address and writing it again gives the text that was read,
/// without the white space around it, with its digits in lower case and
/// `:` for each separator.
pub proof fn lemma_format_of_parsed(s: Seq<char>)
    requires
        is_mac_text(trimmed(s)),
    ensures
        parse_mac(s) is Ok,
        format_mac(parse_mac(s)->Ok_0, false) == canonical(trimmed(s)),
{
    let t = trimmed(s);
    lemma_sound_text(t);
    let mac = parse_mac(s)->Ok_0;
    assert forall|j: int| 0 <= j < 17 implies format_char(mac, false, j) == canonical(t)[j] by {
        let k = j / 3;
        lemma_group_digits(t, k);
        lemma_digit_of_value(t[3 * k]);
        lemma_digit_of_value(t[3 * k + 1]);
    }
}

/// For every text of the form `xx:xx:xx:xx:xx:xx`, with `x` a hexadecimal
/// digit of either case, reading it and writing the address read gives the
/// text in lower case.
pub proof fn lemma_format_of_parsed_colon_text(s: Seq<char>)
    requires
        is_mac_text(s),
        forall|k: int| 0 <= k < 5 ==> #[trigger] s[3 * k + 2] == ':',
    ensures
        parse_mac(s) is Ok,
        format_mac(parse_mac(s)->Ok_0, false) == lowercase(s),
{
    assert(is_hex_digit(s[3 * 5int]) && is_hex_digit(s[3 * 5int + 1]));
    lemma_trimmed_is_identity(s);
    lemma_format_of_parsed(s);
    assert forall|j: int| 0 <= j < 17 implies canonical(s)[j] == lowercase(s)[j] by {
        if j % 3 == 2 {
            let k = j / 3;
            assert(s[3 * k + 2] == ':');
        }
    }
}

/// Writing an address, in either case, and reading the text gives the
/// address back.
pub proof fn lemma_parse_of_formatted(mac: Seq<u8>, upper: bool)
    requires
        mac.len() == 6,
    ensures
        is_mac_text(format_mac(mac, upper)),
        parse_mac(format_mac(mac, upper)) == Ok::<Seq<u8>, MacFault>(mac),
{
    let t = format_mac(mac, upper);
    assert forall|k: int| 0 <= k < 6 implies is_hex_digit(#[trigger] t[3 * k]) && is_hex_digit(
        t[3 * k + 1],
    ) && group_byte(t, k) == mac[k] by {
        lemma_value_of_digit(mac[k] as int / 16, upper);
        lemma_value_of_digit(mac[k] as int % 16, upper);
    }
    assert forall|k: int| 0 <= k < 5 implies is_separator(#[trigger] t[3 * k + 2]) by {}
    lemma_trimmed_is_identity(t);
    lemma_sound_text(t);
    assert(Seq::new(6, |k: int| group_byte(t, k)) =~= mac);
}

/// Two address texts that differ only in the case of their digits, in
/// their separators and in the white space around them read as the same
/// address.
pub proof fn lemma_parse_ignores_case_and_separators(s: Seq<char>, t: Seq<char>)
    requires
        is_mac_text(trimmed(s)),
        is_mac_text(trimmed(t)),
        canonical(trimmed(s)) == canonical(trimmed(t)),
    ensures
        parse_mac(s) is Ok,
        parse_mac(s) == parse_mac(t),
{
    lemma_format_of_parsed(s);
    lemma_format_of_parsed(t);
    lemma_sound_text(trimmed(s));
    lemma_sound_text(trimmed(t));
    lemma_parse_of_formatted(parse_mac(s)->Ok_0, false);
    lemma_parse_of_formatted(parse_mac(t)->Ok_0, false);
}

} // verus!
