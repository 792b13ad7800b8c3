//! Identifiers: parsing the external text form and rendering it back.

use crate::status::{Code, Status, StatusView};
use vstd::prelude::*;

verus! {

/// What `uuid::Uuid::parse_str` returns for a text: the identifier's 128-bit
/// value, or the text of the error that the parser reports.
pub uninterp spec fn uuid_parse(text: Seq<char>) -> Result<u128, Seq<char>>;

/// The lower-case hexadecimal digit for a value below sixteen.
pub open spec fn hex_digit(n: int) -> char {
    seq!['0', '1', '2', '3', '4', '5', '6', '7', '8', '9', 'a', 'b', 'c', 'd', 'e', 'f'][n]
}

/// The last `n` hexadecimal digits of `v`, most significant first.
pub open spec fn hex_digits(v: nat, n: nat) -> Seq<char>
    decreases n,
{
    if n == 0 {
        Seq::empty()
    } else {
        hex_digits(v / 16, (n - 1) as nat).push(hex_digit((v % 16) as int))
    }
}

/// The canonical text of an identifier: its 32 hexadecimal digits in lower
/// case, most significant first, in groups of 8, 4, 4, 4 and 12 joined by
/// hyphens.
pub open spec fn uuid_text(v: u128) -> Seq<char> {
    let h = hex_digits(v as nat, 32);
    h.subrange(0, 8) + seq!['-'] + h.subrange(8, 12) + seq!['-'] + h.subrange(12, 16) + seq!['-']
        + h.subrange(16, 20) + seq!['-'] + h.subrange(20, 32)
}

/// The value that the last `n` hexadecimal digits of `v` spell.
pub open spec fn spelled(v: nat, n: nat) -> nat
    decreases n,
{
    if n == 0 {
        0
    } else {
        spelled(v / 16, (n - 1) as nat) * 16 + v % 16
    }
}

/// The least value that `n` hexadecimal digits cannot spell.
pub open spec fn digits_limit(n: nat) -> nat
    decreases n,
{
    if n == 0 {
        1
    } else {
        16 * digits_limit((n - 1) as nat)
    }
}

/// There are as many digits as were asked for.
pub proof fn lemma_hex_digits_len(v: nat, n: nat)
    ensures
        hex_digits(v, n).len() == n,
    decreases n,
{
    if n > 0 {
        lemma_hex_digits_len(v / 16, (n - 1) as nat);
    }
}

/// Values whose last `n` digits agree spell the same value with them.
pub proof fn lemma_digits_spell(a: nat, b: nat, n: nat)
    requires
        hex_digits(a, n) == hex_digits(b, n),
    ensures
        spelled(a, n) == spelled(b, n),
    decreases n,
{
    if n > 0 {
        let fewer = (n - 1) as nat;
        let da = hex_digits(a / 16, fewer);
        let db = hex_digits(b / 16, fewer);
        lemma_hex_digits_len(a / 16, fewer);
        lemma_hex_digits_len(b / 16, fewer);
        assert(hex_digits(a, n).last() == hex_digit((a % 16) as int));
        assert(hex_digits(b, n).last() == hex_digit((b % 16) as int));
        assert(a % 16 == b % 16);
        assert(da =~= hex_digits(a, n).drop_last());
        assert(db =~= hex_digits(b, n).drop_last());
        lemma_digits_spell(a / 16, b / 16, fewer);
    }
}

/// A value below the limit of `n` digits is what its `n` digits spell.
pub proof fn lemma_spelled_below_limit(v: nat, n: nat)
    requires
        v < digits_limit(n),
    ensures
        spelled(v, n) == v,
    decreases n,
{
    if n > 0 {
        lemma_spelled_below_limit(v / 16, (n - 1) as nat);
    }
}

/// Distinct identifiers have distinct texts.
pub proof fn lemma_uuid_text_injective(a: u128, b: u128)
    requires
        uuid_text(a) == uuid_text(b),
    ensures
        a == b,
{
    let ha = hex_digits(a as nat, 32);
    let hb = hex_digits(b as nat, 32);
    lemma_hex_digits_len(a as nat, 32);
    lemma_hex_digits_len(b as nat, 32);
    let ta = uuid_text(a);
    let tb = uuid_text(b);
    assert forall|i: int| 0 <= i < 32 implies ha[i] == hb[i] by {
        if i < 8 {
            assert(ta[i] == ha[i] && tb[i] == hb[i]);
        } else if i < 12 {
            assert(ta[i + 1] == ha[i] && tb[i + 1] == hb[i]);
        } else if i < 16 {
            assert(ta[i + 2] == ha[i] && tb[i + 2] == hb[i]);
        } else if i < 20 {
            assert(ta[i + 3] == ha[i] && tb[i + 3] == hb[i]);
        } else {
            assert(ta[i + 4] == ha[i] && tb[i + 4] == hb[i]);
        }
    }
    assert(ha =~= hb);
    lemma_digits_spell(a as nat, b as nat, 32);
    assert(digits_limit(32) == 0x1_0000_0000_0000_0000_0000_0000_0000_0000) by {
        reveal_with_fuel(digits_limit, 33);
    }
    lemma_spelled_below_limit(a as nat, 32);
    lemma_spelled_below_limit(b as nat, 32);
}

/// The view of what parsing gave: the value, or the text of the error.
pub open spec fn parse_view(parsed: Result<u128, String>) -> Result<u128, Seq<char>> {
    match parsed {
        Ok(value) => Ok(value),
        Err(detail) => Err(detail@),
    }
}

/// Calls `uuid::Uuid::parse_str` and hands back the value of the identifier
/// it parsed (`Uuid::as_u128`) or the text of its error. Nothing is claimed
/// about which texts parse: the result is only given its name.
#[verifier::external_body]
fn parse_uuid(text: &str) -> (parsed: Result<u128, String>)
    ensures
        parse_view(parsed) == uuid_parse(text@),
{
    match uuid::Uuid::parse_str(text) {
        Ok(id) => Ok(id.as_u128()),
        Err(error) => Err(error.to_string()),
    }
}

/// Calls `Uuid::to_string` on the identifier built by `Uuid::from_u128`: the
/// hyphenated lower-case form, which `uuid_text` writes out.
#[verifier::external_body]
fn format_uuid(value: u128) -> (text: String)
    ensures
        text@ == uuid_text(value),
{
    uuid::Uuid::from_u128(value).to_string()
}

/// A validated identifier of a note or of a user.
#[derive(Clone, Copy, Debug, PartialEq, Eq, Structural)]
pub struct Identifier {
    pub value: u128,
}

/// An identifier that did not parse: the text as it was supplied, and what
/// the parser said about it.
#[derive(Clone, Debug, PartialEq, Eq)]
pub struct InvalidIdentifier {
    pub text: String,
    pub detail: String,
}

/// Whether a text is a well-formed identifier.
pub open spec fn is_identifier(text: Seq<char>) -> bool {
    uuid_parse(text) is Ok
}

/// The value of a well-formed identifier.
pub open spec fn identifier_value(text: Seq<char>) -> u128 {
    uuid_parse(text)->Ok_0
}

/// What the parser says about a malformed identifier.
pub open spec fn identifier_fault(text: Seq<char>) -> Seq<char> {
    uuid_parse(text)->Err_0
}

/// The status that a malformed identifier is reported as.
pub open spec fn invalid_argument(text: Seq<char>) -> StatusView {
    StatusView { code: Code::InvalidArgument, message: identifier_fault(text) }
}

impl Identifier {
    /// Parses an identifier from its external text form.
    ///
    /// Succeeds exactly on the texts that the parser accepts; every other
    /// text comes back unchanged inside the error, with the parser's detail.
    pub fn parse(text: &str) -> (parsed: Result<Identifier, InvalidIdentifier>)
        ensures
            parsed is Ok <==> is_identifier(text@),
            parsed matches Ok(id) ==> id.value == identifier_value(text@),
            parsed matches Err(e) ==> e.text@ == text@ && e.detail@ == identifier_fault(text@),
    {
        match parse_uuid(text) {
            Ok(value) => Ok(Identifier { value }),
            Err(detail) => Err(InvalidIdentifier { text: text.to_owned(), detail }),
        }
    }

    /// Renders the identifier in its canonical text form.
    pub fn to_text(&self) -> (text: String)
        ensures
            text@ == uuid_text(self.value),
    {
        format_uuid(self.value)
    }
}

impl InvalidIdentifier {
    /// Translates the parse failure into the status shown to the caller:
    /// `InvalidArgument`, carrying the parser's detail.
    pub fn into_status(self) -> (status: Status)
        ensures
            status@ == (StatusView { code: Code::InvalidArgument, message: self.detail@ }),
    {
        Status { code: Code::InvalidArgument, message: self.detail }
    }
}

} // verus!
