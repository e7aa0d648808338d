//! The table of resumed sessions.

use crate::binding::{pane_gone, ResumeBinding, ResumePhase, SshResumeOutcome};
use crate::binding::BindingView;
use crate::key::{key_of, KeyView, SshSessionKey, SshSessionsSource};
use crate::model::{binding_well_formed, is_first_of_its_key, lists, overlay, ResumesView};
use crate::session::{session_views, AgentSession, AgentStatus};
use crate::text::{copy_text, is_text, optional_text};
use vstd::prelude::*;

verus! {

struct Entry {
    key: SshSessionKey,
    binding: ResumeBinding,
}

/// The resumed sessions, each under its identity.
pub struct SshResumes {
    entries: Vec<Entry>,
    // A short-lived pane may close before the answer to the request for it comes.
    // Only closures seen while requests are outstanding are kept.
    closed_while_launching: Vec<String>,
}

/// Records under their identities.
type Pairs = Seq<(KeyView, BindingView)>;

spec fn pairs_keys(pairs: Pairs) -> Seq<KeyView> {
    pairs.map_values(|pair: (KeyView, BindingView)| pair.0)
}

spec fn pairs_table(pairs: Pairs) -> Map<KeyView, BindingView> {
    Map::new(
        |key: KeyView| pairs_keys(pairs).contains(key),
        |key: KeyView| pairs[pairs_keys(pairs).index_of(key)].1,
    )
}

spec fn entry_pairs(entries: Seq<Entry>) -> Pairs {
    entries.map_values(|entry: Entry| (entry.key@, entry.binding@))
}

spec fn text_set(texts: Seq<String>) -> Set<Seq<char>> {
    Set::new(|text: Seq<char>| exists|i: int| 0 <= i < texts.len() && (#[trigger] texts[i])@ == text)
}

impl View for SshResumes {
    type V = ResumesView;

    closed spec fn view(&self) -> ResumesView {
        ResumesView {
            keys: pairs_keys(entry_pairs(self.entries@)),
            bindings: pairs_table(entry_pairs(self.entries@)),
            closed: text_set(self.closed_while_launching@),
        }
    }
}

/// A record is found in the table under its identity.
proof fn lemma_pair_in_table(pairs: Pairs, i: int)
    requires
        pairs_keys(pairs).no_duplicates(),
        0 <= i < pairs.len(),
    ensures
        pairs_table(pairs).contains_key(pairs[i].0),
        pairs_table(pairs)[pairs[i].0] == pairs[i].1,
{
    let keys = pairs_keys(pairs);
    assert(keys[i] == pairs[i].0);
    let found = keys.index_of(pairs[i].0);
    assert(keys[found] == pairs[i].0);
}

proof fn lemma_update_pair(pairs: Pairs, i: int, binding: BindingView)
    requires
        pairs_keys(pairs).no_duplicates(),
        0 <= i < pairs.len(),
    ensures
        pairs_keys(pairs.update(i, (pairs[i].0, binding))) == pairs_keys(pairs),
        pairs_table(pairs.update(i, (pairs[i].0, binding))) == pairs_table(pairs).insert(
            pairs[i].0,
            binding,
        ),
{
    let key = pairs[i].0;
    let after = pairs.update(i, (key, binding));
    assert(pairs_keys(after) =~= pairs_keys(pairs));
    lemma_pair_in_table(pairs, i);
    assert forall|k: KeyView| pairs_table(after).contains_key(k) implies pairs_table(after)[k]
        == pairs_table(pairs).insert(key, binding)[k] by {
        let at = pairs_keys(pairs).index_of(k);
        assert(pairs_keys(pairs)[at] == k);
        assert(pairs_keys(pairs)[i] == key);
        lemma_pair_in_table(pairs, at);
        lemma_pair_in_table(after, at);
    }
    assert(pairs_table(after) =~= pairs_table(pairs).insert(key, binding));
}

proof fn lemma_push_pair(pairs: Pairs, key: KeyView, binding: BindingView)
    requires
        pairs_keys(pairs).no_duplicates(),
        !pairs_keys(pairs).contains(key),
    ensures
        pairs_keys(pairs.push((key, binding))) == pairs_keys(pairs).push(key),
        pairs_keys(pairs.push((key, binding))).no_duplicates(),
        pairs_table(pairs.push((key, binding))) == pairs_table(pairs).insert(key, binding),
{
    let after = pairs.push((key, binding));
    assert(pairs_keys(after) =~= pairs_keys(pairs).push(key));
    assert(pairs_keys(after).no_duplicates()) by {
        assert(forall|i: int|
            0 <= i < pairs.len() ==> pairs_keys(pairs).contains(#[trigger] pairs_keys(pairs)[i]));
    }
    assert forall|k: KeyView|
        pairs_table(after).contains_key(k) <==> pairs_table(pairs).insert(
            key,
            binding,
        ).contains_key(k) by {
        if pairs_keys(pairs).contains(k) {
            let at = pairs_keys(pairs).index_of(k);
            assert(pairs_keys(after)[at] == k);
        }
        if k == key {
            assert(pairs_keys(after)[pairs.len() as int] == k);
        }
    }
    assert forall|k: KeyView| pairs_table(after).contains_key(k) implies pairs_table(after)[k]
        == pairs_table(pairs).insert(key, binding)[k] by {
        let at = pairs_keys(after).index_of(k);
        assert(pairs_keys(after)[at] == k);
        lemma_pair_in_table(after, at);
        if at < pairs.len() {
            lemma_pair_in_table(pairs, at);
        }
    }
    assert(pairs_table(after) =~= pairs_table(pairs).insert(key, binding));
}

proof fn lemma_remove_pair(pairs: Pairs, i: int)
    requires
        pairs_keys(pairs).no_duplicates(),
        0 <= i < pairs.len(),
    ensures
        pairs_keys(pairs.remove(i)) == pairs_keys(pairs).remove_value(pairs[i].0),
        pairs_keys(pairs.remove(i)).no_duplicates(),
        pairs_table(pairs.remove(i)) == pairs_table(pairs).remove(pairs[i].0),
{
    let key = pairs[i].0;
    let keys = pairs_keys(pairs);
    let after = pairs.remove(i);
    keys.index_of_first_ensures(key);
    assert(keys[i] == key);
    assert(keys.contains(key));
    assert(keys.index_of_first(key) == Some(i));
    assert(pairs_keys(after) =~= keys.remove(i));
    assert(pairs_keys(after).no_duplicates());
    assert forall|k: KeyView|
        pairs_table(after).contains_key(k) <==> pairs_table(pairs).remove(key).contains_key(k) by {
        if keys.contains(k) && k != key {
            let at = keys.index_of(k);
            assert(keys[at] == k);
            let moved = if at < i {
                at
            } else {
                at - 1
            };
            assert(pairs_keys(after)[moved] == k);
        }
        if pairs_keys(after).contains(k) {
            let at = pairs_keys(after).index_of(k);
            assert(pairs_keys(after)[at] == k);
            let moved = if at < i {
                at
            } else {
                at + 1
            };
            assert(keys[moved] == k);
        }
    }
    assert forall|k: KeyView| pairs_table(after).contains_key(k) implies pairs_table(after)[k]
        == pairs_table(pairs).remove(key)[k] by {
        let at = pairs_keys(after).index_of(k);
        assert(pairs_keys(after)[at] == k);
        let moved = if at < i {
            at
        } else {
            at + 1
        };
        assert(keys[moved] == k);
        lemma_pair_in_table(after, at);
        lemma_pair_in_table(pairs, moved);
    }
    assert(pairs_table(after) =~= pairs_table(pairs).remove(key));
}

proof fn lemma_close_pairs(pairs: Pairs, after: Pairs, pane_id: Seq<char>)
    requires
        pairs_keys(pairs).no_duplicates(),
        after.len() == pairs.len(),
        forall|i: int|
            0 <= i < pairs.len() ==> #[trigger] after[i] == (
                pairs[i].0,
                pairs[i].1.after_closure(pane_id),
            ),
    ensures
        pairs_keys(after) == pairs_keys(pairs),
        pairs_table(after) == pairs_table(pairs).map_values(
            |binding: BindingView| binding.after_closure(pane_id),
        ),
{
    let mapped = pairs_table(pairs).map_values(
        |binding: BindingView| binding.after_closure(pane_id),
    );
    assert(pairs_keys(after) =~= pairs_keys(pairs));
    assert forall|k: KeyView| pairs_table(after).contains_key(k) implies pairs_table(after)[k]
        == mapped[k] by {
        let at = pairs_keys(pairs).index_of(k);
        assert(pairs_keys(pairs)[at] == k);
        lemma_pair_in_table(pairs, at);
        lemma_pair_in_table(after, at);
    }
    assert(pairs_table(after) =~= mapped);
}

impl SshResumes {
    /// No session resumed.
    pub fn new() -> (resumes: Self)
        ensures
            resumes@ == ResumesView::none(),
            resumes@.well_formed(),
    {
        let resumes = SshResumes { entries: Vec::new(), closed_while_launching: Vec::new() };
        assert(resumes@.keys =~= Seq::empty());
        assert(resumes@.bindings =~= Map::empty());
        assert(resumes@.closed =~= Set::empty());
        resumes
    }

    /// Where the table holds a record.
    fn position(&self, key: &SshSessionKey) -> (found: Option<usize>)
        requires
            self@.well_formed(),
        ensures
            match found {
                Some(i) => {
                    &&& i < self.entries@.len()
                    &&& self.entries@[i as int].key@ == key@
                    &&& self@.keys.contains(key@)
                    &&& self@.bindings.contains_key(key@)
                    &&& self@.bindings[key@] == self.entries@[i as int].binding@
                },
                None => !self@.keys.contains(key@) && !self@.bindings.contains_key(key@),
            },
    {
        let ghost pairs = entry_pairs(self.entries@);
        for i in 0..self.entries.len()
            invariant
                self@.well_formed(),
                pairs == entry_pairs(self.entries@),
                forall|j: int| 0 <= j < i ==> (#[trigger] self.entries@[j]).key@ != key@,
        {
            if self.entries[i].key == *key {
                proof {
                    lemma_pair_in_table(pairs, i as int);
                    assert(self@.keys[i as int] == key@);
                }
                return Some(i);
            }
        }
        proof {
            if self@.keys.contains(key@) {
                let at = self@.keys.index_of(key@);
                assert(self@.keys[at] == self.entries@[at].key@);
            }
        }
        None
    }

    /// The record of the session with this identity.
    pub fn get(&self, key: &SshSessionKey) -> (binding: Option<&ResumeBinding>)
        requires
            self@.well_formed(),
        ensures
            match binding {
                Some(binding) => self@.bindings.contains_key(key@) && binding@
                    == self@.bindings[key@],
                None => !self@.bindings.contains_key(key@),
            },
    {
        match self.position(key) {
            Some(i) => Some(&self.entries[i].binding),
            None => None,
        }
    }

    /// Whether no session is resumed.
    pub fn is_empty(&self) -> (empty: bool)
        ensures
            empty == (self@.keys.len() == 0),
    {
        self.entries.is_empty()
    }

    /// Whether no closure of a pane is kept.
    pub fn keeps_no_closures(&self) -> (none: bool)
        ensures
            none == (self@.closed == Set::<Seq<char>>::empty()),
    {
        proof {
            if self.closed_while_launching@.len() > 0 {
                assert(self@.closed.contains(self.closed_while_launching@[0]@));
            } else {
                assert(self@.closed =~= Set::empty());
            }
        }
        self.closed_while_launching.is_empty()
    }

    /// Whether some session waits for its pane.
    pub fn any_launching(&self) -> (any: bool)
        requires
            self@.well_formed(),
        ensures
            any == self@.any_launching(),
    {
        let ghost pairs = entry_pairs(self.entries@);
        for i in 0..self.entries.len()
            invariant
                self@.well_formed(),
                pairs == entry_pairs(self.entries@),
                forall|j: int|
                    0 <= j < i ==> (#[trigger] self.entries@[j]).binding.phase
                        != ResumePhase::Launching,
        {
            if self.entries[i].binding.phase == ResumePhase::Launching {
                proof {
                    lemma_pair_in_table(pairs, i as int);
                    assert(self@.is_launching(pairs[i as int].0));
                }
                return true;
            }
        }
        proof {
            assert forall|key: KeyView| !self@.is_launching(key) by {
                if self@.bindings.contains_key(key) {
                    let at = self@.keys.index_of(key);
                    assert(self@.keys[at] == self.entries@[at].key@);
                    lemma_pair_in_table(pairs, at);
                }
            }
        }
        false
    }

    /// Forgets the closures unless some session still waits for its pane.
    pub fn clear_finished_closures(&mut self)
        requires
            old(self)@.well_formed(),
        ensures
            final(self)@ == old(self)@.pruned(),
            final(self)@.well_formed(),
    {
        if !self.any_launching() {
            self.closed_while_launching.clear();
            assert(self@.closed =~= Set::empty());
        }
    }

    /// Records the end of the session at a place of the table.
    fn end(&mut self, i: usize)
        requires
            old(self)@.well_formed(),
            i < old(self).entries@.len(),
        ensures
            final(self)@ == old(self)@.with_binding(
                old(self).entries@[i as int].key@,
                old(self).entries@[i as int].binding@.ended(),
            ),
            final(self)@.well_formed(),
    {
        self.entries[i].binding.phase = ResumePhase::Ended;
        self.entries[i].binding.session.status = AgentStatus::Ended;
        self.entries[i].binding.session.pane_session_id = None;
        proof {
            lemma_pair_in_table(entry_pairs(old(self).entries@), i as int);
            self.lemma_changed(*old(self), i as int);
        }
    }

    /// Records at a place of the table that a pane shows the session.
    fn bind(&mut self, i: usize, pane_id: String, now: i128)
        requires
            old(self)@.well_formed(),
            i < old(self).entries@.len(),
        ensures
            final(self)@ == old(self)@.with_binding(
                old(self).entries@[i as int].key@,
                old(self).entries@[i as int].binding@.bound(pane_id@, now),
            ),
            final(self)@.well_formed(),
    {
        self.entries[i].binding.phase = ResumePhase::Bound;
        self.entries[i].binding.session.status = AgentStatus::Idle;
        self.entries[i].binding.session.pane_session_id = Some(pane_id);
        self.entries[i].binding.session.last_activity_at = now;
        proof {
            lemma_pair_in_table(entry_pairs(old(self).entries@), i as int);
            self.lemma_changed(*old(self), i as int);
        }
    }

    /// A table in which one record was changed.
    proof fn lemma_changed(self, before: Self, i: int)
        requires
            before@.well_formed(),
            0 <= i < before.entries@.len(),
            self.closed_while_launching == before.closed_while_launching,
            self.entries@.len() == before.entries@.len(),
            forall|j: int|
                0 <= j < self.entries@.len() && j != i ==> self.entries@[j] == before.entries@[j],
            self.entries@[i].key == before.entries@[i].key,
            binding_well_formed(self.entries@[i].key@, self.entries@[i].binding@),
        ensures
            self@ == before@.with_binding(before.entries@[i].key@, self.entries@[i].binding@),
            self@.well_formed(),
    {
        let pairs = entry_pairs(before.entries@);
        let after = entry_pairs(self.entries@);
        let binding = self.entries@[i].binding@;
        assert(after =~= pairs.update(i, (pairs[i].0, binding)));
        lemma_update_pair(pairs, i, binding);
        assert(before@.keys[i] == before.entries@[i].key@);
        assert(before@.keys.contains(before.entries@[i].key@));
    }

    /// Records that a pane was asked for to resume a session.
    pub fn launch(&mut self, key: SshSessionKey, operation_id: u128, session: AgentSession)
        requires
            old(self)@.well_formed(),
            key_of(session@) == Some(key@),
        ensures
            final(self)@ == old(self)@.launched(key@, operation_id, session@),
            final(self)@.well_formed(),
    {
        let binding = ResumeBinding { operation_id, phase: ResumePhase::Launching, session };
        match self.position(&key) {
            Some(i) => {
                self.entries[i].binding = binding;
                proof {
                    self.lemma_changed(*old(self), i as int);
                }
            },
            None => {
                let ghost pairs = entry_pairs(self.entries@);
                let ghost added = (key@, binding@);
                self.entries.push(Entry { key, binding });
                proof {
                    assert(entry_pairs(self.entries@) =~= pairs.push(added));
                    lemma_push_pair(pairs, added.0, added.1);
                    self.lemma_keys_and_table();
                }
            },
        }
    }

    /// The table has a record for exactly the identities that it lists.
    proof fn lemma_keys_and_table(self)
        ensures
            forall|key: KeyView|
                #![trigger self@.bindings.contains_key(key)]
                #![trigger self@.keys.contains(key)]
                self@.bindings.contains_key(key) <==> self@.keys.contains(key),
    {
    }

    /// Takes a report of the terminal into account, unless it is stale: `None` says
    /// that it was. Otherwise the failure to show, if the report is one, comes back.
    pub fn settle(
        &mut self,
        key: &SshSessionKey,
        operation_id: u128,
        outcome: SshResumeOutcome,
        now: i128,
    ) -> (error: Option<Option<String>>)
        requires
            old(self)@.well_formed(),
        ensures
            final(self)@ == old(self)@.settled(key@, operation_id, outcome@, now),
            final(self)@.well_formed(),
            match error {
                Some(error) => {
                    &&& old(self)@.accepts(key@, operation_id, outcome@)
                    &&& optional_text(error) == outcome@.failure()
                },
                None => !old(self)@.accepts(key@, operation_id, outcome@),
            },
    {
        let i = match self.position(key) {
            Some(i) => i,
            None => return None,
        };
        if self.entries[i].binding.operation_id != operation_id {
            return None;
        }
        let mut error: Option<String> = None;
        match outcome {
            SshResumeOutcome::Created(result) => {
                if self.entries[i].binding.phase != ResumePhase::Launching {
                    return None;
                }
                match result {
                    Ok(pane_id) => {
                        if self.has_closure(&pane_id) {
                            self.end(i);
                        } else {
                            self.bind(i, pane_id, now);
                        }
                    },
                    Err(message) => {
                        error = Some(message);
                        self.forget(i);
                    },
                }
            },
            SshResumeOutcome::FocusFailed { pane_id, error: message } => {
                if !is_text(&self.entries[i].binding.session.pane_session_id, &pane_id) {
                    return None;
                }
                if pane_gone(message.as_str()) {
                    self.end(i);
                }
                error = Some(message);
            },
        }
        self.clear_finished_closures();
        Some(error)
    }

    /// Whether a closure of this pane is kept.
    fn has_closure(&self, pane_id: &String) -> (kept: bool)
        ensures
            kept == self@.closed.contains(pane_id@),
    {
        for i in 0..self.closed_while_launching.len()
            invariant
                forall|j: int|
                    0 <= j < i ==> (#[trigger] self.closed_while_launching@[j])@ != pane_id@,
        {
            if self.closed_while_launching[i] == *pane_id {
                return true;
            }
        }
        false
    }

    /// Removes the record at a place of the table.
    fn forget(&mut self, i: usize)
        requires
            old(self)@.well_formed(),
            i < old(self).entries@.len(),
        ensures
            final(self)@ == old(self)@.without_binding(old(self).entries@[i as int].key@),
            final(self)@.well_formed(),
    {
        let ghost pairs = entry_pairs(self.entries@);
        let _ = self.entries.remove(i);
        proof {
            assert(entry_pairs(self.entries@) =~= pairs.remove(i as int));
            lemma_remove_pair(pairs, i as int);
            self.lemma_keys_and_table();
        }
    }

    /// Takes into account that a pane closed or failed, and says whether a session
    /// ended with it.
    pub fn close_pane(&mut self, pane_id: &String) -> (ended: bool)
        requires
            old(self)@.well_formed(),
        ensures
            final(self)@ == old(self)@.pane_closed(pane_id@),
            final(self)@.well_formed(),
            ended == old(self)@.shows_pane(pane_id@),
    {
        let ghost closed = self.closed_while_launching@;
        if self.any_launching() {
            if !self.has_closure(pane_id) {
                self.closed_while_launching.push(pane_id.clone());
            }
        }
        proof {
            let kept = self.closed_while_launching@;
            assert forall|text: Seq<char>|
                text_set(kept).contains(text) <==> old(self)@.pane_closed(
                    pane_id@,
                ).closed.contains(text) by {
                if kept.len() > closed.len() {
                    assert(kept[closed.len() as int]@ == pane_id@);
                    if text_set(closed).contains(text) {
                        let at = choose|i: int|
                            0 <= i < closed.len() && (#[trigger] closed[i])@ == text;
                        assert(kept[at]@ == text);
                    }
                }
            }
            assert(text_set(kept) =~= old(self)@.pane_closed(pane_id@).closed);
        }
        let mut ended: bool = false;
        let ghost pairs = entry_pairs(self.entries@);
        let count: usize = self.entries.len();
        for i in 0..count
            invariant
                count == pairs.len(),
                self.entries@.len() == pairs.len(),
                pairs == entry_pairs(old(self).entries@),
                text_set(self.closed_while_launching@) == old(self)@.pane_closed(pane_id@).closed,
                forall|j: int|
                    0 <= j < pairs.len() ==> {
                        &&& (#[trigger] self.entries@[j]).key@ == pairs[j].0
                        &&& self.entries@[j].binding@ == if j < i {
                            pairs[j].1.after_closure(pane_id@)
                        } else {
                            pairs[j].1
                        }
                    },
                ended == exists|j: int|
                    0 <= j < i && (#[trigger] pairs[j]).1.session.pane_session_id == Some(pane_id@),
        {
            if is_text(&self.entries[i].binding.session.pane_session_id, pane_id) {
                self.entries[i].binding.phase = ResumePhase::Ended;
                self.entries[i].binding.session.status = AgentStatus::Ended;
                self.entries[i].binding.session.pane_session_id = None;
                ended = true;
                assert(pairs[i as int].1.session.pane_session_id == Some(pane_id@));
            }
        }
        proof {
            let after = entry_pairs(self.entries@);
            lemma_close_pairs(pairs, after, pane_id@);
            assert(self@ =~= old(self)@.pane_closed(pane_id@));
            if ended {
                let at = choose|j: int|
                    0 <= j < pairs.len() && (#[trigger] pairs[j]).1.session.pane_session_id
                        == Some(pane_id@);
                lemma_pair_in_table(pairs, at);
                assert(old(self)@.bindings.contains_key(pairs[at].0));
            }
            if old(self)@.shows_pane(pane_id@) {
                let key = choose|key: KeyView| #[trigger]
                    old(self)@.bindings.contains_key(key)
                        && old(self)@.bindings[key].session.pane_session_id == Some(pane_id@);
                let at = pairs_keys(pairs).index_of(key);
                assert(pairs_keys(pairs)[at] == key);
                lemma_pair_in_table(pairs, at);
                assert(pairs[at].1.session.pane_session_id == Some(pane_id@));
            }
        }
        ended
    }

    /// Where a list first shows the session with this identity.
    fn find_row(rows: &Vec<AgentSession>, key: &SshSessionKey) -> (found: Option<usize>)
        ensures
            match found {
                Some(i) => {
                    &&& i < rows@.len()
                    &&& key_of(session_views(rows@)[i as int]) == Some(key@)
                    &&& is_first_of_its_key(session_views(rows@), i as int)
                },
                None => !lists(session_views(rows@), key@),
            },
    {
        for i in 0..rows.len()
            invariant
                forall|j: int| 0 <= j < i ==> key_of(#[trigger] session_views(rows@)[j]) != Some(key@),
        {
            assert(session_views(rows@)[i as int] == rows@[i as int]@);
            if key.identifies(&rows[i]) {
                return Some(i);
            }
        }
        None
    }

    /// Brings the list of a source up to date: the rows of sessions whose pane has
    /// been answered for show what became of them, and a resumed session that the
    /// list misses is added unless it is over.
    pub fn merge_rows(&self, rows: &mut Vec<AgentSession>, source: &SshSessionsSource)
        requires
            self@.well_formed(),
        ensures
            session_views(final(rows)@) == self@.merged_rows(session_views(old(rows)@), source@),
    {
        let ghost listed = session_views(rows@);
        proof {
            assert(self@.prefix(0).keys =~= Seq::empty());
            assert(self@.prefix(0).missing_rows(listed, source@) =~= Seq::empty()) by {
                reveal(Seq::filter);
            }
            assert(self@.prefix(0).merged_rows(listed, source@) =~= listed);
        }
        for n in 0..self.entries.len()
            invariant
                self@.well_formed(),
                listed == session_views(old(rows)@),
                session_views(rows@) == self@.prefix(n as int).merged_rows(listed, source@),
        {
            let entry = &self.entries[n];
            let ghost before = session_views(rows@);
            proof {
                self@.lemma_merge_step(listed, source@, n as int);
                lemma_pair_in_table(entry_pairs(self.entries@), n as int);
                assert(self@.keys[n as int] == entry.key@);
            }
            if entry.key.matches_source(source) {
                match Self::find_row(rows, &entry.key) {
                    Some(i) => {
                        if entry.binding.phase != ResumePhase::Launching {
                            rows[i].status = entry.binding.session.status;
                            rows[i].pane_session_id = copy_text(
                                &entry.binding.session.pane_session_id,
                            );
                            if rows[i].last_activity_at < entry.binding.session.last_activity_at {
                                rows[i].last_activity_at = entry.binding.session.last_activity_at;
                            }
                            assert(session_views(rows@) =~= before.update(
                                i as int,
                                overlay(before[i as int], entry.binding@.session),
                            ));
                        }
                    },
                    None => {
                        if entry.binding.phase != ResumePhase::Ended {
                            rows.push(entry.binding.session.clone());
                            assert(session_views(rows@) =~= before.push(entry.binding@.session));
                        }
                    },
                }
            }
        }
        assert(self@.prefix(self@.keys.len() as int).keys =~= self@.keys);
    }
}

} // verus!
