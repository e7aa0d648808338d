//! The identifiers that the terminal gives its panes, and those of the helper's
//! own requests. Both are 128-bit GUIDs, held here as integers.

use vstd::prelude::*;

verus! {

/// The message for a pane whose GUID is all zeros.
pub const EMPTY_PANE_MESSAGE: &'static str = "SSH resume returned an empty pane GUID.";

/// The hexadecimal digit at a place of a GUID, as a number. Place 0 is the most
/// significant of the 32.
pub open spec fn nibble(id: u128, place: int) -> u128 {
    (id >> ((124 - 4 * place) as u128)) & 0xf
}

/// The lower case hexadecimal digit that stands for a number below 16.
pub open spec fn hex_digit(value: u128) -> char {
    if value < 10 {
        (48 + value) as char
    } else {
        (87 + value) as char
    }
}

/// The 32 digits of a GUID.
pub open spec fn guid_digits(id: u128) -> Seq<char> {
    Seq::new(32, |place: int| hex_digit(nibble(id, place)))
}

/// The canonical spelling of a GUID: its digits in groups of 8, 4, 4, 4 and 12,
/// with a hyphen between two groups.
pub open spec fn guid_text(id: u128) -> Seq<char> {
    let digits = guid_digits(id);
    digits.subrange(0, 8) + seq!['-'] + digits.subrange(8, 12) + seq!['-'] + digits.subrange(12, 16)
        + seq!['-'] + digits.subrange(16, 20) + seq!['-'] + digits.subrange(20, 32)
}

/// A letter of the English alphabet in lower case, and any other character as it is.
pub open spec fn lower_case(letter: char) -> char {
    if 'A' <= letter && letter <= 'Z' {
        (letter as u32 + 32) as char
    } else {
        letter
    }
}

/// Whether a text spells a GUID. The spellings are the bare digits, the canonical
/// one, and the canonical one in braces or behind `urn:uuid:`, in either case.
pub open spec fn spells_guid(text: Seq<char>, id: u128) -> bool {
    let lowered = text.map_values(|letter: char| lower_case(letter));
    ||| lowered == guid_digits(id)
    ||| lowered == guid_text(id)
    ||| lowered == seq!['{'] + guid_text(id) + seq!['}']
    ||| lowered == "urn:uuid:"@ + guid_text(id)
}

/// The GUID that a text spells, if it spells one.
pub open spec fn guid_of(text: Seq<char>) -> Option<u128> {
    if exists|id: u128| spells_guid(text, id) {
        Some(choose|id: u128| spells_guid(text, id))
    } else {
        None
    }
}

/// What `uuid::Uuid::parse_str` reports of a text that spells no GUID.
pub uninterp spec fn guid_error(text: Seq<char>) -> Seq<char>;

/// `uuid::Uuid::parse_str`: the GUID that the text spells, in any of the spellings
/// of [`spells_guid`]; for every other text the message of the error it returns,
/// which depends on the text alone.
#[verifier::external_body]
pub(crate) fn parse_guid(text: &str) -> (parsed: Result<u128, String>)
    ensures
        match parsed {
            Ok(id) => spells_guid(text@, id),
            Err(message) => {
                &&& forall|id: u128| !spells_guid(text@, id)
                &&& message@ == guid_error(text@)
            },
        },
{
    match uuid::Uuid::parse_str(text) {
        Ok(id) => Ok(id.as_u128()),
        Err(error) => Err(error.to_string()),
    }
}

/// The text that `uuid::Uuid` displays as: its canonical spelling.
#[verifier::external_body]
pub(crate) fn format_guid(id: u128) -> (text: String)
    ensures
        text@ == guid_text(id),
{
    uuid::Uuid::from_u128(id).to_string()
}

/// Whether a GUID is marked as a random one: version 4, of the common variant.
pub open spec fn is_random_guid(id: u128) -> bool {
    &&& (id >> 76u128) & 0xf == 4
    &&& (id >> 62u128) & 3 == 2
}

/// `uuid::Uuid::new_v4`: a GUID drawn at random, with the marks of a random one.
/// Nothing is said of two draws; where the system has no randomness to give, the
/// call panics.
#[verifier::external_body]
pub(crate) fn random_guid() -> (id: u128)
    ensures
        is_random_guid(id),
{
    uuid::Uuid::new_v4().as_u128()
}

proof fn lemma_hex_digit_injective(a: u128, b: u128)
    requires
        a < 16,
        b < 16,
        hex_digit(a) == hex_digit(b),
    ensures
        a == b,
{
    assert(hex_digit(a) as u32 == if a < 10 { 48 + a } else { 87 + a });
    assert(hex_digit(b) as u32 == if b < 10 { 48 + b } else { 87 + b });
}

proof fn lemma_nibble_small(id: u128, place: int)
    ensures
        nibble(id, place) < 16,
{
    let shifted = id >> ((124 - 4 * place) as u128);
    assert(shifted & 0xf < 16) by (bit_vector);
}

/// Two GUIDs that agree on their first digits agree on the number these digits form.
proof fn lemma_nibbles_determine_prefix(a: u128, b: u128, place: int)
    requires
        0 <= place < 32,
        forall|p: int| 0 <= p < 32 ==> nibble(a, p) == nibble(b, p),
    ensures
        a >> ((124 - 4 * place) as u128) == b >> ((124 - 4 * place) as u128),
    decreases place,
{
    assert(nibble(a, place) == nibble(b, place));
    if place == 0 {
        assert((a >> 124u128) & 0xf == a >> 124u128) by (bit_vector);
        assert((b >> 124u128) & 0xf == b >> 124u128) by (bit_vector);
    } else {
        lemma_nibbles_determine_prefix(a, b, place - 1);
        let shift = (124 - 4 * place) as u128;
        let above = (shift + 4) as u128;
        assert(above == (124 - 4 * (place - 1)) as u128);
        assert(a >> shift == b >> shift) by (bit_vector)
            requires
                shift <= 120,
                above == shift + 4,
                a >> above == b >> above,
                (a >> shift) & 0xf == (b >> shift) & 0xf,
        ;
    }
}

/// A GUID is determined by its digits.
proof fn lemma_digits_determine(a: u128, b: u128)
    requires
        guid_digits(a) == guid_digits(b),
    ensures
        a == b,
{
    assert forall|place: int| 0 <= place < 32 implies nibble(a, place) == nibble(b, place) by {
        lemma_nibble_small(a, place);
        lemma_nibble_small(b, place);
        assert(guid_digits(a)[place] == hex_digit(nibble(a, place)));
        assert(guid_digits(b)[place] == hex_digit(nibble(b, place)));
        lemma_hex_digit_injective(nibble(a, place), nibble(b, place));
    }
    lemma_nibbles_determine_prefix(a, b, 31);
    assert(a >> 0u128 == a) by (bit_vector);
    assert(b >> 0u128 == b) by (bit_vector);
}

/// The digits of a GUID can be read off its canonical spelling.
proof fn lemma_text_shows_digits(id: u128)
    ensures
        guid_text(id).len() == 36,
        guid_digits(id) == guid_text(id).subrange(0, 8) + guid_text(id).subrange(9, 13) + guid_text(
            id,
        ).subrange(14, 18) + guid_text(id).subrange(19, 23) + guid_text(id).subrange(24, 36),
{
    let digits = guid_digits(id);
    let text = guid_text(id);
    assert(text.subrange(0, 8) =~= digits.subrange(0, 8));
    assert(text.subrange(9, 13) =~= digits.subrange(8, 12));
    assert(text.subrange(14, 18) =~= digits.subrange(12, 16));
    assert(text.subrange(19, 23) =~= digits.subrange(16, 20));
    assert(text.subrange(24, 36) =~= digits.subrange(20, 32));
    assert(digits =~= digits.subrange(0, 8) + digits.subrange(8, 12) + digits.subrange(12, 16)
        + digits.subrange(16, 20) + digits.subrange(20, 32));
}

/// Two GUIDs with the same canonical spelling are the same.
pub proof fn guid_text_is_unique(a: u128, b: u128)
    requires
        guid_text(a) == guid_text(b),
    ensures
        a == b,
{
    lemma_text_shows_digits(a);
    lemma_text_shows_digits(b);
    lemma_digits_determine(a, b);
}

/// A text spells at most one GUID.
pub proof fn spelling_is_unambiguous(text: Seq<char>, a: u128, b: u128)
    requires
        spells_guid(text, a),
        spells_guid(text, b),
    ensures
        a == b,
{
    reveal_strlit("urn:uuid:");
    lemma_text_shows_digits(a);
    lemma_text_shows_digits(b);
    let lowered = text.map_values(|letter: char| lower_case(letter));
    let braced_a = seq!['{'] + guid_text(a) + seq!['}'];
    let braced_b = seq!['{'] + guid_text(b) + seq!['}'];
    let urn_a = "urn:uuid:"@ + guid_text(a);
    let urn_b = "urn:uuid:"@ + guid_text(b);
    if lowered == guid_digits(a) {
        lemma_digits_determine(a, b);
    } else {
        assert(guid_text(a) == guid_text(b)) by {
            assert(braced_a.subrange(1, 37) =~= guid_text(a));
            assert(braced_b.subrange(1, 37) =~= guid_text(b));
            assert(urn_a.subrange(9, 45) =~= guid_text(a));
            assert(urn_b.subrange(9, 45) =~= guid_text(b));
        }
        guid_text_is_unique(a, b);
    }
}

/// The canonical spelling of a GUID spells it, on its own and in braces.
pub proof fn canonical_spelling_reads_back(id: u128)
    ensures
        guid_of(guid_text(id)) == Some(id),
        guid_of(seq!['{'] + guid_text(id) + seq!['}']) == Some(id),
{
    let text = guid_text(id);
    let braced = seq!['{'] + text + seq!['}'];
    lemma_text_shows_digits(id);
    assert forall|place: int| 0 <= place < 32 implies lower_case(#[trigger] guid_digits(id)[place])
        == guid_digits(id)[place] by {
        lemma_nibble_small(id, place);
    }
    assert(text.map_values(|letter: char| lower_case(letter)) =~= text);
    assert(braced.map_values(|letter: char| lower_case(letter)) =~= braced);
    assert(spells_guid(text, id));
    assert(spells_guid(braced, id));
    spelling_is_unambiguous(text, id, guid_of(text).unwrap());
    spelling_is_unambiguous(braced, id, guid_of(braced).unwrap());
}

/// The canonical spelling of the pane that a text names, if it names one.
pub open spec fn pane_named(text: Seq<char>) -> Option<Seq<char>> {
    match guid_of(text) {
        Some(id) => Some(guid_text(id)),
        None => None,
    }
}

/// The pane that a request for a new tab made: the canonical spelling of the GUID
/// that the terminal answered, or why there is none to show.
pub open spec fn pane_created(reply: Result<Seq<char>, Seq<char>>) -> Result<Seq<char>, Seq<char>> {
    match reply {
        Ok(text) => match guid_of(text) {
            Some(id) => if id == 0 {
                Err(EMPTY_PANE_MESSAGE@)
            } else {
                Ok(guid_text(id))
            },
            None => Err(guid_error(text)),
        },
        Err(message) => Err(message),
    }
}

/// What a result over strings denotes.
pub open spec fn result_text(result: Result<String, String>) -> Result<Seq<char>, Seq<char>> {
    match result {
        Ok(text) => Ok(text@),
        Err(message) => Err(message@),
    }
}

/// The canonical spelling of the pane that `text` names, `None` where it names none.
pub fn canonical_pane_id(text: &str) -> (pane_id: Option<String>)
    ensures
        match pane_id {
            Some(pane_id) => pane_named(text@) == Some(pane_id@),
            None => pane_named(text@) is None,
        },
{
    match parse_guid(text) {
        Ok(id) => {
            proof {
                spelling_is_unambiguous(text@, id, guid_of(text@).unwrap());
            }
            Some(format_guid(id))
        },
        Err(_) => None,
    }
}

/// The pane that a request for a new tab made. `reply` is the pane identifier in
/// the terminal's answer, or the message of the failure to get one. An identifier
/// that is no GUID, and the GUID of all zeros, are failures too.
pub fn created_pane_id(reply: Result<String, String>) -> (created: Result<String, String>)
    ensures
        result_text(created) == pane_created(result_text(reply)),
{
    match reply {
        Ok(text) => match parse_guid(text.as_str()) {
            Ok(id) => {
                proof {
                    spelling_is_unambiguous(text@, id, guid_of(text@).unwrap());
                }
                if id == 0 {
                    Err(EMPTY_PANE_MESSAGE.to_string())
                } else {
                    Ok(format_guid(id))
                }
            },
            Err(message) => Err(message),
        },
        Err(message) => Err(message),
    }
}

} // verus!
