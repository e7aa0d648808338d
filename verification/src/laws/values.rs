//! What the values of the library stand for: sessions, identities, pane names and
//! messages.

use crate::binding::{reports_missing_pane, OutcomeView, ResumeBinding, SshResumeOutcome};
use crate::clock::NANOS_LIMIT;
use crate::guid::{guid_digits, guid_error, guid_of, guid_text, hex_digit, is_random_guid};
use crate::guid::{lower_case, nibble, pane_created, pane_named, result_text, spells_guid};
use crate::guid::{spelling_is_unambiguous, canonical_spelling_reads_back};
use crate::key::{key_of, KeyView, SourceView, SshSessionKey, SshSessionsSource};
use crate::requests::{check_view, step_view, ErrorView, ResumeError, ResumeStep, StepView};
use crate::session::{session_views, AgentSession, CliSource, SessionLocation};
use crate::session::{SessionView, SshTarget, TargetView};
use crate::tabs::{selection_views, tab_views, TabSelection, TabSession};
use crate::text::{occurs_at, occurs_in, optional_text};
use vstd::arithmetic::power2::pow2;
use vstd::prelude::*;
use vstd::std_specs::cmp::PartialEqSpec;

verus! {

/// Everything that a session holds is part of what it denotes, so that a copy of a
/// session, or a session that was carried along, has lost nothing.
pub proof fn sessions_show_every_field(session: AgentSession)
    ensures
        session@.key == session.key@,
        session@.cli_source == session.cli_source.name@,
        session@.title == session.title@,
        session@.cwd == session.cwd@,
        session@.status == session.status,
        session@.origin == session.origin,
        session@.last_activity_at == session.last_activity_at,
        match session.pane_session_id {
            Some(pane_id) => session@.pane_session_id == Some(pane_id@),
            None => session@.pane_session_id is None,
        },
        match session.location {
            SessionLocation::Host => session@.location is Host,
            SessionLocation::Wsl { distro } => session@.location is Wsl
                && session@.location->distro == distro@,
            SessionLocation::Ssh { target } => {
                &&& session@.location is Ssh
                &&& session@.location->target.destination == target.destination@
                &&& session@.location->target.port == target.port
            },
        },
{
}

/// A list of sessions denotes the list of what they denote.
pub proof fn session_lists_are_shown_row_by_row(sessions: Seq<AgentSession>)
    ensures
        session_views(sessions).len() == sessions.len(),
        forall|i: int|
            0 <= i < sessions.len() ==> #[trigger] session_views(sessions)[i] == sessions[i]@,
{
}

/// Everything that tells sessions and sources apart is part of what they denote.
pub proof fn identities_show_every_field(key: SshSessionKey, source: SshSessionsSource)
    ensures
        key@.target.destination == key.target.destination@,
        key@.target.port == key.target.port,
        key@.cli == key.cli.name@,
        key@.session_id == key.session_id@,
        source@.target.destination == source.target.destination@,
        source@.target.port == source.target.port,
        match source.cli {
            Some(cli) => source@.cli == Some(cli.name@),
            None => source@.cli is None,
        },
{
}

/// Machines, agents and identities are equal exactly if all of their fields are.
pub proof fn equality_is_of_all_fields(
    a: SshTarget,
    b: SshTarget,
    c: CliSource,
    d: CliSource,
    e: SshSessionKey,
    f: SshSessionKey,
)
    ensures
        a.eq_spec(&b) <==> a.destination@ == b.destination@ && a.port == b.port,
        c.eq_spec(&d) <==> c.name@ == d.name@,
        e.eq_spec(&f) <==> {
            &&& e.target.destination@ == f.target.destination@
            &&& e.target.port == f.target.port
            &&& e.cli.name@ == f.cli.name@
            &&& e.session_id@ == f.session_id@
        },
{
}

/// Everything that a record and a report hold is part of what they denote.
pub proof fn records_and_reports_show_every_field(
    binding: ResumeBinding,
    outcome: SshResumeOutcome,
    result: Result<String, String>,
    check: Result<(), String>,
    text: Option<String>,
)
    ensures
        binding@.operation_id == binding.operation_id,
        binding@.phase == binding.phase,
        binding@.session == binding.session@,
        match outcome {
            SshResumeOutcome::Created(Ok(pane_id)) => outcome@ == OutcomeView::Created(
                Ok(pane_id@),
            ),
            SshResumeOutcome::Created(Err(message)) => outcome@ == OutcomeView::Created(
                Err(message@),
            ),
            SshResumeOutcome::FocusFailed { pane_id, error } => outcome@ == (
            OutcomeView::FocusFailed { pane_id: pane_id@, error: error@ }),
        },
        match result {
            Ok(value) => result_text(result) == Ok::<Seq<char>, Seq<char>>(value@),
            Err(message) => result_text(result) == Err::<Seq<char>, Seq<char>>(message@),
        },
        match check {
            Ok(_) => check_view(check) is Ok,
            Err(message) => check_view(check) == Err::<(), Seq<char>>(message@),
        },
        match text {
            Some(value) => optional_text(text) == Some(value@),
            None => optional_text(text) is None,
        },
{
}

/// Everything that a tab and a selection hold is part of what they denote.
pub proof fn tabs_show_every_field(tab: TabSession, selection: TabSelection)
    ensures
        tab@.id == tab.id@,
        tab@.selected == tab.selected,
        match tab.agents_view.ssh_source {
            Some(source) => tab@.source == Some(source@),
            None => tab@.source is None,
        },
        match tab.agents_view.ssh_error {
            Some(error) => tab@.error == Some(error@),
            None => tab@.error is None,
        },
        match tab.agents_view.snapshot {
            Some(rows) => tab@.rows == Some(session_views(rows@)),
            None => tab@.rows is None,
        },
        selection@ == (selection.tab_id@, selection.selected),
{
}

/// Lists of tabs and of selections denote the lists of what they denote.
pub proof fn tab_lists_are_shown_one_by_one(
    tabs: Seq<TabSession>,
    selections: Seq<TabSelection>,
)
    ensures
        tab_views(tabs).len() == tabs.len(),
        forall|i: int| 0 <= i < tabs.len() ==> #[trigger] tab_views(tabs)[i] == tabs[i]@,
        selection_views(selections).len() == selections.len(),
        forall|i: int|
            0 <= i < selections.len() ==> #[trigger] selection_views(selections)[i]
                == selections[i]@,
{
}

/// Everything that a step holds is part of what it denotes.
pub proof fn steps_show_every_field(step: ResumeStep, error: ResumeError)
    ensures
        match step {
            ResumeStep::Nothing => step@ is Nothing,
            ResumeStep::Refused { error } => step@ == (StepView::Refused { error: error@ }),
            ResumeStep::CreateTab { key, operation_id, commandline, title } => step@ == (
            StepView::CreateTab {
                key: key@,
                operation_id,
                commandline: commandline@,
                title: title@,
            }),
            ResumeStep::FocusPane { key, operation_id, pane_id } => step@ == (
            StepView::FocusPane { key: key@, operation_id, pane_id: pane_id@ }),
        },
        step_view(Ok(step)) == Ok::<StepView, ErrorView>(step@),
        step_view(Err(error)) == Err::<StepView, ErrorView>(error@),
        error is NotRemote <==> error@ is NotRemote,
        error is ForeignSource <==> error@ is ForeignSource,
        error is NoBinding <==> error@ is NoBinding,
        error is StaleBinding <==> error@ is StaleBinding,
        error is NoResumeLoop <==> error@ is NoResumeLoop,
        error is NoFocusLoop <==> error@ is NoFocusLoop,
        error matches ResumeError::NoRuntime { message } ==> error@ == (ErrorView::NoRuntime {
            message: message@,
        }),
{
}

/// Each refusal in its own words.
pub proof fn refusals_in_words(message: Seq<char>)
    ensures
        ErrorView::NotRemote.message() == "SSH resume requires an SSH session source."@,
        ErrorView::ForeignSource.message()
            == "SSH session does not belong to the selected source."@,
        ErrorView::NoBinding.message() == "SSH session has no local pane binding."@,
        ErrorView::StaleBinding.message() == "SSH session pane binding is no longer current."@,
        ErrorView::NoResumeLoop.message() == "SSH session resume requires the helper event loop."@,
        ErrorView::NoFocusLoop.message() == "SSH session focus requires the helper event loop."@,
        (ErrorView::NoRuntime { message }).message() == message,
{
}

/// The identity of a session is made of its machine, its agent and its identifier,
/// and a session that is not on a remote machine has none.
pub proof fn identity_is_read_off_the_session(session: SessionView, key: KeyView)
    ensures
        key_of(session) == Some(key) <==> {
            &&& session.location is Ssh
            &&& session.location->target.destination == key.target.destination
            &&& session.location->target.port == key.target.port
            &&& session.cli_source == key.cli
            &&& session.key == key.session_id
        },
        key_of(session) is Some <==> session.location is Ssh,
{
    if session.location is Ssh {
        let target: TargetView = session.location->target;
        if target.destination == key.target.destination && target.port == key.target.port {
            assert(target == key.target);
        }
    }
}

/// A source lists a session exactly if they agree on the host, on the port and on the
/// agent. A source whose agent is unknown lists none.
pub proof fn sources_list_by_host_port_and_agent(key: KeyView, source: SourceView)
    ensures
        key.listed_by(source) <==> {
            &&& key.target.destination == source.target.destination
            &&& key.target.port == source.target.port
            &&& source.cli is Some
            &&& source.cli.unwrap() == key.cli
        },
        source.cli is None ==> !key.listed_by(source),
{
    if key.target.destination == source.target.destination && key.target.port
        == source.target.port {
        assert(key.target == source.target);
    }
}

/// Two sources that list one and the same session are the same source.
pub proof fn a_session_has_one_source(key: KeyView, a: SourceView, b: SourceView)
    requires
        key.listed_by(a),
        key.listed_by(b),
    ensures
        a.target.destination == b.target.destination,
        a.target.port == b.target.port,
        a.cli == b.cli,
{
}

/// A text is part of another exactly if the other is made of it and of something
/// before and after it.
pub proof fn a_part_stands_between_two_others(needle: Seq<char>, haystack: Seq<char>)
    ensures
        occurs_in(needle, haystack) <==> exists|before: Seq<char>, after: Seq<char>|
            haystack == #[trigger] (before + needle + after),
{
    if occurs_in(needle, haystack) {
        let start = choose|start: int| occurs_at(needle, haystack, start);
        let before = haystack.subrange(0, start);
        let after = haystack.subrange(start + needle.len(), haystack.len() as int);
        assert(haystack =~= before + needle + after);
    }
    if exists|before: Seq<char>, after: Seq<char>|
        haystack == #[trigger] (before + needle + after) {
        let (before, after) = choose|before: Seq<char>, after: Seq<char>|
            haystack == #[trigger] (before + needle + after);
        let start = before.len() as int;
        assert(haystack.subrange(start, start + needle.len()) =~= needle);
        assert(occurs_at(needle, haystack, start));
    }
}

/// A failure tells of a missing pane exactly if the code `0x80070490` is part of it,
/// whatever else it says.
pub proof fn only_the_not_found_code_tells_of_a_missing_pane(error: Seq<char>)
    ensures
        reports_missing_pane(error) <==> exists|before: Seq<char>, after: Seq<char>|
            error == #[trigger] (before + "0x80070490"@ + after),
{
    a_part_stands_between_two_others("0x80070490"@, error);
}

/// The same code, found by its place.
pub proof fn the_not_found_code_has_a_place(error: Seq<char>)
    ensures
        reports_missing_pane(error) <==> exists|start: int|
            0 <= start <= error.len() - 10 && #[trigger] error.subrange(start, start + 10)
                == "0x80070490"@,
{
    reveal_strlit("0x80070490");
    let code = "0x80070490"@;
    if reports_missing_pane(error) {
        let start = choose|start: int| occurs_at(code, error, start);
        assert(error.subrange(start, start + 10) == code);
    }
    if exists|start: int|
        0 <= start <= error.len() - 10 && #[trigger] error.subrange(start, start + 10) == code {
        let start = choose|start: int|
            0 <= start <= error.len() - 10 && #[trigger] error.subrange(start, start + 10) == code;
        assert(occurs_at(code, error, start));
    }
}

/// Every pane but the one of all zeros is taken from an answer that spells it, under
/// its canonical name.
pub proof fn every_pane_but_the_empty_one_is_taken(text: Seq<char>, id: u128)
    requires
        spells_guid(text, id),
    ensures
        id != 0 ==> pane_created(Ok(text)) == Ok::<Seq<char>, Seq<char>>(guid_text(id)),
        id == 0 ==> pane_created(Ok(text)) == Err::<Seq<char>, Seq<char>>(
            "SSH resume returned an empty pane GUID."@,
        ),
        pane_named(text) == Some(guid_text(id)),
        guid_of(text) == Some(id),
{
    spelling_is_unambiguous(text, id, guid_of(text).unwrap());
}

/// The pane of a text is the one that the text spells, and an answer gives it unless it
/// is the one of all zeros.
pub proof fn the_pane_of_a_text_is_the_one_it_spells(text: Seq<char>, id: u128)
    ensures
        guid_of(text) == Some(id) <==> spells_guid(text, id),
        guid_of(text) == Some(id) && id != 0 ==> pane_created(Ok(text)) == Ok::<
            Seq<char>,
            Seq<char>,
        >(guid_text(id)),
        guid_of(text) == Some(id) && id == 0 ==> pane_created(Ok(text)) is Err,
{
    if spells_guid(text, id) {
        every_pane_but_the_empty_one_is_taken(text, id);
    }
}

/// An answer that spells no pane is the failure that the parser makes of it, and a
/// failure to answer stays that failure.
pub proof fn other_answers_are_failures(text: Seq<char>, message: Seq<char>)
    requires
        forall|id: u128| !spells_guid(text, id),
    ensures
        pane_created(Ok(text)) == Err::<Seq<char>, Seq<char>>(guid_error(text)),
        pane_named(text) is None,
        guid_of(text) is None,
        pane_created(Err(message)) == Err::<Seq<char>, Seq<char>>(message),
{
}

/// Reading a pane is the same however it is spelled: the canonical name of a pane
/// that was taken from an answer is taken as it is, and names the same pane.
pub proof fn taken_panes_read_back(reply: Seq<char>, pane_id: Seq<char>)
    requires
        pane_created(Ok(reply)) == Ok::<Seq<char>, Seq<char>>(pane_id),
    ensures
        pane_created(Ok(pane_id)) == Ok::<Seq<char>, Seq<char>>(pane_id),
        pane_created(Ok(seq!['{'] + pane_id + seq!['}'])) == Ok::<Seq<char>, Seq<char>>(pane_id),
        pane_named(pane_id) == Some(pane_id),
        pane_named(seq!['{'] + pane_id + seq!['}']) == Some(pane_id),
        pane_named(reply) == Some(pane_id),
{
    canonical_spelling_reads_back(guid_of(reply).unwrap());
}

/// The digits of a GUID are those of its number to the base 16, the most significant
/// first, each written as one of `0123456789abcdef`.
pub proof fn digits_are_those_of_the_number(id: u128, place: int)
    requires
        0 <= place < 32,
    ensures
        guid_digits(id).len() == 32,
        ({
            let value = (id as nat / pow2((124 - 4 * place) as nat)) % 16;
            guid_digits(id)[place] == "0123456789abcdef"@[value as int]
        }),
{
    reveal_strlit("0123456789abcdef");
    let shift = (124 - 4 * place) as u128;
    let shifted = id >> shift;
    vstd::bits::lemma_u128_shr_is_div(id, shift);
    assert(shifted & 0xf == shifted % 16) by (bit_vector);
    assert(guid_digits(id)[place] == hex_digit(nibble(id, place)));
}

/// The canonical name of a pane has 36 characters: hyphens at four places, and the
/// digits in order at the others.
pub proof fn canonical_names_are_hyphenated_digits(id: u128)
    ensures
        guid_text(id).len() == 36,
        guid_text(id)[8] == '-',
        guid_text(id)[13] == '-',
        guid_text(id)[18] == '-',
        guid_text(id)[23] == '-',
        forall|i: int| 0 <= i < 8 ==> #[trigger] guid_text(id)[i] == guid_digits(id)[i],
        forall|i: int| 9 <= i < 13 ==> #[trigger] guid_text(id)[i] == guid_digits(id)[i - 1],
        forall|i: int| 14 <= i < 18 ==> #[trigger] guid_text(id)[i] == guid_digits(id)[i - 2],
        forall|i: int| 19 <= i < 23 ==> #[trigger] guid_text(id)[i] == guid_digits(id)[i - 3],
        forall|i: int| 24 <= i < 36 ==> #[trigger] guid_text(id)[i] == guid_digits(id)[i - 4],
{
}

/// A GUID is a random one exactly if its canonical name shows the version 4 and one
/// of the four digits of the common variant.
pub proof fn random_identifiers_show_their_marks(id: u128)
    ensures
        is_random_guid(id) <==> {
            &&& guid_text(id)[14] == '4'
            &&& (guid_text(id)[19] == '8' || guid_text(id)[19] == '9' || guid_text(id)[19] == 'a'
                || guid_text(id)[19] == 'b')
        },
        is_random_guid(id) ==> id != 0,
{
    canonical_names_are_hyphenated_digits(id);
    assert(guid_text(id)[14] == hex_digit(nibble(id, 12)));
    assert(guid_text(id)[19] == hex_digit(nibble(id, 16)));
    assert(nibble(id, 12) == (id >> 76u128) & 0xf);
    assert(nibble(id, 16) == (id >> 60u128) & 0xf);
    assert((id >> 76u128) & 0xf < 16 && (id >> 60u128) & 0xf < 16) by (bit_vector);
    assert((id >> 62u128) & 3 == 2 <==> 8 <= (id >> 60u128) & 0xf <= 11) by (bit_vector);
    assert((0u128 >> 76u128) & 0xf == 0) by (bit_vector);
}

/// A pane may be spelled by its digits alone, by its canonical name, and by the
/// latter in braces or behind `urn:uuid:`.
pub proof fn panes_have_four_spellings(id: u128)
    ensures
        spells_guid(guid_digits(id), id),
        spells_guid(guid_text(id), id),
        spells_guid(seq!['{'] + guid_text(id) + seq!['}'], id),
        spells_guid("urn:uuid:"@ + guid_text(id), id),
{
    reveal_strlit("urn:uuid:");
    let digits = guid_digits(id);
    let name = guid_text(id);
    let braced = seq!['{'] + name + seq!['}'];
    let urn = "urn:uuid:"@ + name;
    canonical_names_are_hyphenated_digits(id);
    assert forall|place: int| 0 <= place < 32 implies lower_case(#[trigger] digits[place])
        == digits[place] by {
        digits_are_those_of_the_number(id, place);
        reveal_strlit("0123456789abcdef");
    }
    assert(digits.map_values(|letter: char| lower_case(letter)) =~= digits);
    assert(name.map_values(|letter: char| lower_case(letter)) =~= name);
    assert(braced.map_values(|letter: char| lower_case(letter)) =~= braced);
    assert(urn.map_values(|letter: char| lower_case(letter)) =~= urn);
}

/// Every text that spells a pane is one of its four spellings, but that letters may
/// be written large.
pub proof fn panes_have_no_other_spelling(text: Seq<char>, id: u128) -> (spelling: Seq<char>)
    requires
        spells_guid(text, id),
    ensures
        spelling == guid_digits(id) || spelling == guid_text(id) || spelling == seq!['{']
            + guid_text(id) + seq!['}'] || spelling == "urn:uuid:"@ + guid_text(id),
        text.len() == spelling.len(),
        forall|i: int|
            #![trigger text[i]]
            0 <= i < text.len() ==> text[i] == spelling[i] || ('A' <= text[i] <= 'Z'
                && spelling[i] as int == text[i] as int + 32),
{
    let lowered = text.map_values(|letter: char| lower_case(letter));
    assert forall|i: int| #![trigger text[i]] 0 <= i < text.len() implies text[i] == lowered[i] || (
    'A' <= text[i] <= 'Z' && lowered[i] as int == text[i] as int + 32) by {
        assert(lowered[i] == lower_case(text[i]));
    }
    lowered
}

/// Whether a letter is written large or small has no bearing on what is spelled.
pub proof fn case_does_not_matter(a: Seq<char>, b: Seq<char>, id: u128)
    requires
        a.len() == b.len(),
        forall|i: int|
            #![trigger a[i], b[i]]
            0 <= i < a.len() ==> a[i] == b[i] || ('A' <= a[i] <= 'Z' && b[i] as int == a[i] as int
                + 32) || ('A' <= b[i] <= 'Z' && a[i] as int == b[i] as int + 32),
    ensures
        spells_guid(a, id) == spells_guid(b, id),
{
    let lowered_a = a.map_values(|letter: char| lower_case(letter));
    let lowered_b = b.map_values(|letter: char| lower_case(letter));
    assert forall|i: int| 0 <= i < a.len() implies lowered_a[i] == lowered_b[i] by {
        assert(a[i] == b[i] || lower_case(a[i]) as int == lower_case(b[i]) as int);
    }
    assert(lowered_a =~= lowered_b);
}

/// The clock is read as a number of nanoseconds whose whole seconds fit in 64 bits.
pub proof fn the_clock_counts_nanoseconds()
    ensures
        NANOS_LIMIT == 0x1_0000_0000_0000_0000 * 1_000_000_000,
{
}

} // verus!
