//! Descriptive records: the ledger's own metadata and that of each token.

use crate::account::optional_text;
use vstd::prelude::*;
use vstd::string::{StrSliceExecFns, StringExecFns};

verus! {

/// Label of the metadata standard that the ledger's record carries.
pub const METADATA_SPEC_LABEL: &'static str = "nft-1.0.0";

/// Name of the collection when none is given.
pub const DEFAULT_NAME: &'static str = "Chubby Runners";

/// Symbol of the collection.
pub const SYMBOL: &'static str = "RUNNER";

/// Icon of the collection, as a data URL.
pub const DATA_IMAGE_SVG_ICON: &'static str = "data:image/svg+xml,%3Csvg id='Layer_2' data-name='Layer 2' xmlns='http://www.w3.org/2000/svg' viewBox='0 0 566.1 555.59'%3E%3Cdefs%3E%3Cstyle%3E.cls-1%7Bfill:%23f15a29;%7D%3C/style%3E%3C/defs%3E%3Cpath class='cls-1' d='M708.73,315.12c-51.79-57-126-92.91-208.8-92.91s-157,36-208.7,92.91A284.3,284.3,0,0,0,217,506.91c.05,135,28.75,205.94,75.67,243.24a147.36,147.36,0,0,0,27.31,17.25c-3.78-3-7.42-6.31-10.84-9.66a153.64,153.64,0,0,1-46.47-108.63c-1.75-43.71-2.58-73-3.57-107-.45-17.91-1-37-1.75-60.44,0-88.38,92-154.43,174.26-154.43H568.42c99.77,0,174.26,81.5,174.26,154.83-.71,23-1.23,42-1.78,60-1,34-1.79,63.3-3.54,106.65A156.09,156.09,0,0,1,679,768.18a153.42,153.42,0,0,0,30-18.88c46-37.58,74.06-108.51,74.06-242.39a284.62,284.62,0,0,0-74.32-191.79Z' transform='translate(-216.95 -222.21)'/%3E%3Cpath class='cls-1' d='M564.92,352H435c-74,0-152.76,60-152.76,134,2,63,2.46,94.93,5,158.36.38,48.13,26.18,90,64.43,113.4a134.15,134.15,0,0,0,70.73,20.08H577.51a134.43,134.43,0,0,0,70.78-20.08c38.18-23.46,64-65.23,64.38-113.4,2.58-63.45,3.07-95.39,5.11-158.36C717.75,412,638.92,352,564.92,352ZM422.46,587.21a49.52,49.52,0,0,1-30.31,10.42,51.07,51.07,0,1,1,30.31-10.42ZM607.8,597.65a51.05,51.05,0,0,1-50.46-50.44,50.46,50.46,0,1,1,50.46,50.44Z' transform='translate(-216.95 -222.21)'/%3E%3C/svg%3E";

/// Description that every token carries.
pub const TOKEN_DESCRIPTION: &'static str = "Near Runner play-to-earn game NFT";

/// The longest base address, in bytes, that the ledger's metadata takes.
pub const MAX_BASE_URI_BYTES: usize = 100;

/// The ledger's own descriptive record.
#[derive(Debug, PartialEq, Eq)]
pub struct NFTContractMetadata {
    pub spec: String,
    pub name: String,
    pub symbol: String,
    pub icon: Option<String>,
    pub base_uri: Option<String>,
    pub reference: Option<String>,
    pub reference_hash: Option<Vec<u8>>,
}

/// The ledger's descriptive record as a mathematical value.
pub struct ContractDescription {
    pub spec: Seq<char>,
    pub name: Seq<char>,
    pub symbol: Seq<char>,
    pub icon: Option<Seq<char>>,
    pub base_uri: Option<Seq<char>>,
    pub reference: Option<Seq<char>>,
    pub reference_hash: Option<Seq<u8>>,
}

impl View for NFTContractMetadata {
    type V = ContractDescription;

    open spec fn view(&self) -> ContractDescription {
        ContractDescription {
            spec: self.spec@,
            name: self.name@,
            symbol: self.symbol@,
            icon: optional_text(self.icon),
            base_uri: optional_text(self.base_uri),
            reference: optional_text(self.reference),
            reference_hash: match self.reference_hash {
                Some(h) => Some(h@),
                None => None,
            },
        }
    }
}

/// The record that the ledger carries under a name, an icon and a base
/// address: the fixed standard label and symbol, and no reference.
pub open spec fn described(
    name: Seq<char>,
    icon: Option<Seq<char>>,
    base_uri: Seq<char>,
) -> ContractDescription {
    ContractDescription {
        spec: METADATA_SPEC_LABEL@,
        name,
        symbol: SYMBOL@,
        icon,
        base_uri: Some(base_uri),
        reference: None,
        reference_hash: None,
    }
}

impl NFTContractMetadata {
    /// Writes the record for a name, an icon and a base address.
    pub fn describe(name: String, icon: Option<String>, base_uri: String) -> (meta:
        NFTContractMetadata)
        ensures
            meta@ == described(name@, optional_text(icon), base_uri@),
    {
        NFTContractMetadata {
            spec: METADATA_SPEC_LABEL.to_owned(),
            name,
            symbol: SYMBOL.to_owned(),
            icon,
            base_uri: Some(base_uri),
            reference: None,
            reference_hash: None,
        }
    }
}

/// The character of a decimal digit.
pub open spec fn digit_char(d: nat) -> char {
    if d == 0 {
        '0'
    } else if d == 1 {
        '1'
    } else if d == 2 {
        '2'
    } else if d == 3 {
        '3'
    } else if d == 4 {
        '4'
    } else if d == 5 {
        '5'
    } else if d == 6 {
        '6'
    } else if d == 7 {
        '7'
    } else if d == 8 {
        '8'
    } else {
        '9'
    }
}

/// A number written in decimal, without leading zeros.
pub open spec fn decimal(n: nat) -> Seq<char>
    decreases n,
{
    if n < 10 {
        seq![digit_char(n)]
    } else {
        decimal(n / 10).push(digit_char(n % 10))
    }
}

fn digit_text(d: u64) -> (text: &'static str)
    requires
        d < 10,
    ensures
        text@ == seq![digit_char(d as nat)],
{
    proof {
        reveal_strlit("0");
        reveal_strlit("1");
        reveal_strlit("2");
        reveal_strlit("3");
        reveal_strlit("4");
        reveal_strlit("5");
        reveal_strlit("6");
        reveal_strlit("7");
        reveal_strlit("8");
        reveal_strlit("9");
    }
    let text = if d == 0 {
        "0"
    } else if d == 1 {
        "1"
    } else if d == 2 {
        "2"
    } else if d == 3 {
        "3"
    } else if d == 4 {
        "4"
    } else if d == 5 {
        "5"
    } else if d == 6 {
        "6"
    } else if d == 7 {
        "7"
    } else if d == 8 {
        "8"
    } else {
        "9"
    };
    assert(text@ =~= seq![digit_char(d as nat)]);
    text
}

/// Writes a token number in decimal: the label under which the token is
/// known outside the ledger.
pub fn token_label(n: u64) -> (text: String)
    ensures
        text@ == decimal(n as nat),
    decreases n,
{
    if n < 10 {
        digit_text(n).to_owned()
    } else {
        let mut text = token_label(n / 10);
        let digit = digit_text(n % 10);
        text.append(digit);
        assert(text@ =~= decimal((n / 10) as nat).push(digit_char((n % 10) as nat)));
        text
    }
}

/// Whether a character is a decimal digit.
pub open spec fn is_digit(c: char) -> bool {
    c == '0' || c == '1' || c == '2' || c == '3' || c == '4' || c == '5' || c == '6' || c == '7'
        || c == '8' || c == '9'
}

/// The number that a decimal digit stands for.
pub open spec fn digit_value(c: char) -> nat {
    if c == '0' {
        0
    } else if c == '1' {
        1
    } else if c == '2' {
        2
    } else if c == '3' {
        3
    } else if c == '4' {
        4
    } else if c == '5' {
        5
    } else if c == '6' {
        6
    } else if c == '7' {
        7
    } else if c == '8' {
        8
    } else {
        9
    }
}

/// The number that a row of decimal digits stands for.
pub open spec fn digits_value(text: Seq<char>) -> nat
    decreases text.len(),
{
    if text.len() == 0 {
        0
    } else {
        digits_value(text.drop_last()) * 10 + digit_value(text.last())
    }
}

/// A number written in decimal is a row of at least one digit, and the row
/// stands for the number.
pub proof fn lemma_decimal_reads_back(n: nat)
    ensures
        decimal(n).len() >= 1,
        forall|i: int| 0 <= i < decimal(n).len() ==> is_digit(#[trigger] decimal(n)[i]),
        digits_value(decimal(n)) == n,
    decreases n,
{
    if n < 10 {
        assert(decimal(n).drop_last() =~= Seq::<char>::empty());
        assert(digits_value(decimal(n).drop_last()) == 0);
    } else {
        lemma_decimal_reads_back(n / 10);
        assert(decimal(n).drop_last() =~= decimal(n / 10));
    }
}

/// The first digits of a row stand for no more than the whole row.
pub proof fn lemma_digits_value_prefix(text: Seq<char>, n: int)
    requires
        0 <= n <= text.len(),
    ensures
        digits_value(text.take(n)) <= digits_value(text),
    decreases text.len() - n,
{
    if n == text.len() {
        assert(text.take(n) =~= text);
    } else {
        lemma_digits_value_prefix(text, n + 1);
        assert(text.take(n + 1).drop_last() =~= text.take(n));
    }
}

fn digit_of(c: char) -> (d: Option<u64>)
    ensures
        match d {
            Some(v) => is_digit(c) && v == digit_value(c),
            None => !is_digit(c),
        },
{
    if c == '0' {
        Some(0)
    } else if c == '1' {
        Some(1)
    } else if c == '2' {
        Some(2)
    } else if c == '3' {
        Some(3)
    } else if c == '4' {
        Some(4)
    } else if c == '5' {
        Some(5)
    } else if c == '6' {
        Some(6)
    } else if c == '7' {
        Some(7)
    } else if c == '8' {
        Some(8)
    } else if c == '9' {
        Some(9)
    } else {
        None
    }
}

/// Reads a token label: the number whose label the text is, if it is the
/// label of any number. A text with a sign, with leading zeros or with
/// anything but digits is no label.
pub fn token_number(label: &str) -> (number: Option<u64>)
    ensures
        match number {
            Some(n) => label@ == decimal(n as nat),
            None => forall|n: u64| label@ != decimal(n as nat),
        },
{
    let ghost text = label@;
    let len: usize = label.unicode_len();
    if len == 0 {
        proof {
            assert forall|n: u64| label@ != decimal(n as nat) by {
                lemma_decimal_reads_back(n as nat);
            }
        }
        return None;
    }
    let mut value: u64 = 0;
    let mut i: usize = 0;
    while i < len
        invariant
            text == label@,
            len == text.len(),
            i <= len,
            value == digits_value(text.take(i as int)),
        decreases len - i,
    {
        let c: char = label.get_char(i);
        proof {
            assert(text.take(i + 1).drop_last() =~= text.take(i as int));
            assert(text.take(i + 1).last() == c);
            lemma_digits_value_prefix(text, i + 1);
        }
        let digit: u64 = match digit_of(c) {
            Some(d) => d,
            None => {
                proof {
                    assert forall|n: u64| label@ != decimal(n as nat) by {
                        lemma_decimal_reads_back(n as nat);
                        if label@ == decimal(n as nat) {
                            assert(is_digit(decimal(n as nat)[i as int]));
                        }
                    }
                }
                return None;
            },
        };
        if value > (u64::MAX - digit) / 10 {
            proof {
                assert forall|n: u64| label@ != decimal(n as nat) by {
                    lemma_decimal_reads_back(n as nat);
                }
            }
            return None;
        }
        value = value * 10 + digit;
        i += 1;
    }
    proof {
        assert(text.take(len as int) =~= text);
    }
    let written: String = token_label(value);
    if written == label.to_owned() {
        Some(value)
    } else {
        proof {
            assert forall|n: u64| label@ != decimal(n as nat) by {
                lemma_decimal_reads_back(n as nat);
            }
        }
        None
    }
}

/// The descriptive record of one token. It is written when the token is
/// minted and never changes.
#[derive(Debug, PartialEq, Eq)]
pub struct TokenMetadata {
    pub title: String,
    pub description: String,
    pub media: String,
    pub reference: String,
    pub copies: u64,
}

/// A token's descriptive record as a mathematical value.
pub struct TokenDescription {
    pub title: Seq<char>,
    pub description: Seq<char>,
    pub media: Seq<char>,
    pub reference: Seq<char>,
    pub copies: u64,
}

impl View for TokenMetadata {
    type V = TokenDescription;

    open spec fn view(&self) -> TokenDescription {
        TokenDescription {
            title: self.title@,
            description: self.description@,
            media: self.media@,
            reference: self.reference@,
            copies: self.copies,
        }
    }
}

/// The record that a token of the given number carries: a title, a media
/// pointer and a reference pointer that hold the number in decimal, the
/// common description, and one copy.
pub open spec fn minted_description(token_id: u64) -> TokenDescription {
    TokenDescription {
        title: "A-Runner #"@ + decimal(token_id as nat),
        description: TOKEN_DESCRIPTION@,
        media: "img/"@ + decimal(token_id as nat) + ".jpg"@,
        reference: "data/"@ + decimal(token_id as nat) + ".json"@,
        copies: 1,
    }
}

impl TokenMetadata {
    /// Writes the record of a newly minted token.
    pub fn minted(token_id: u64) -> (meta: TokenMetadata)
        ensures
            meta@ == minted_description(token_id),
    {
        let label = token_label(token_id);
        let mut title = "A-Runner #".to_owned();
        title.append(label.as_str());
        let mut media = "img/".to_owned();
        media.append(label.as_str());
        media.append(".jpg");
        let mut reference = "data/".to_owned();
        reference.append(label.as_str());
        reference.append(".json");
        TokenMetadata {
            title,
            description: TOKEN_DESCRIPTION.to_owned(),
            media,
            reference,
            copies: 1,
        }
    }
}

impl Clone for TokenMetadata {
    fn clone(&self) -> (meta: TokenMetadata)
        ensures
            meta@ == self@,
    {
        TokenMetadata {
            title: self.title.clone(),
            description: self.description.clone(),
            media: self.media.clone(),
            reference: self.reference.clone(),
            copies: self.copies,
        }
    }
}

} // verus!
