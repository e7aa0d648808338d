//! What the resumed sessions are, and how each event changes them.

use crate::binding::{reports_missing_pane, BindingView, OutcomeView, ResumePhase};
use crate::key::{key_of, KeyView, SourceView};
use crate::session::{AgentStatus, SessionView};
use vstd::prelude::*;

verus! {

/// The resumed sessions.
#[verifier::ext_equal]
pub struct ResumesView {
    /// The identities of the sessions, in the order in which they were first resumed.
    pub keys: Seq<KeyView>,
    pub bindings: Map<KeyView, BindingView>,
    /// The panes that closed while requests for panes were outstanding.
    pub closed: Set<Seq<char>>,
}

/// Whether a row shows the session with an identity.
pub open spec fn lists(rows: Seq<SessionView>, key: KeyView) -> bool {
    exists|i: int| 0 <= i < rows.len() && key_of(#[trigger] rows[i]) == Some(key)
}

/// Whether no row above this one shows the same session.
pub open spec fn is_first_of_its_key(rows: Seq<SessionView>, i: int) -> bool {
    forall|j: int| 0 <= j < i ==> key_of(#[trigger] rows[j]) != key_of(rows[i])
}

/// A row of an agent's history, brought up to date by the record of its resumption.
pub open spec fn overlay(row: SessionView, session: SessionView) -> SessionView {
    SessionView {
        status: session.status,
        pane_session_id: session.pane_session_id,
        last_activity_at: if row.last_activity_at >= session.last_activity_at {
            row.last_activity_at
        } else {
            session.last_activity_at
        },
        ..row
    }
}

impl ResumesView {
    /// No session resumed.
    pub open spec fn none() -> ResumesView {
        ResumesView { keys: Seq::empty(), bindings: Map::empty(), closed: Set::empty() }
    }

    /// What holds of the resumed sessions at all times: each identity has one
    /// record, of the session with that identity; a session with a pane is idle in
    /// it; a session without one is over.
    pub open spec fn well_formed(self) -> bool {
        &&& self.keys.no_duplicates()
        &&& forall|key: KeyView|
            #![trigger self.bindings.contains_key(key)]
            #![trigger self.keys.contains(key)]
            self.bindings.contains_key(key) <==> self.keys.contains(key)
        &&& forall|key: KeyView| #[trigger]
            self.bindings.contains_key(key) ==> binding_well_formed(key, self.bindings[key])
    }

    /// Whether the session with this identity waits for its pane.
    pub open spec fn is_launching(self, key: KeyView) -> bool {
        self.bindings.contains_key(key) && self.bindings[key].phase == ResumePhase::Launching
    }

    /// Whether some session waits for its pane.
    pub open spec fn any_launching(self) -> bool {
        exists|key: KeyView| self.is_launching(key)
    }

    /// Whether a record names this pane.
    pub open spec fn shows_pane(self, pane_id: Seq<char>) -> bool {
        exists|key: KeyView| #[trigger]
            self.bindings.contains_key(key) && self.bindings[key].session.pane_session_id == Some(
                pane_id,
            )
    }

    /// The same with a new record for one session.
    pub open spec fn with_binding(self, key: KeyView, binding: BindingView) -> ResumesView {
        ResumesView {
            keys: if self.keys.contains(key) {
                self.keys
            } else {
                self.keys.push(key)
            },
            bindings: self.bindings.insert(key, binding),
            ..self
        }
    }

    /// The same without the record of one session.
    pub open spec fn without_binding(self, key: KeyView) -> ResumesView {
        ResumesView {
            keys: self.keys.remove_value(key),
            bindings: self.bindings.remove(key),
            ..self
        }
    }

    /// The closures are of use only as long as some session waits for its pane.
    pub open spec fn pruned(self) -> ResumesView {
        if self.any_launching() {
            self
        } else {
            ResumesView { closed: Set::empty(), ..self }
        }
    }

    /// After a pane was asked for to resume a session.
    pub open spec fn launched(
        self,
        key: KeyView,
        operation_id: u128,
        session: SessionView,
    ) -> ResumesView {
        self.with_binding(
            key,
            BindingView { operation_id, phase: ResumePhase::Launching, session },
        )
    }

    /// Whether a report concerns the record as it is: it belongs to the request
    /// that the record follows, and either answers it, or speaks of the pane that
    /// the record names.
    pub open spec fn accepts(self, key: KeyView, operation_id: u128, outcome: OutcomeView) -> bool {
        &&& self.bindings.contains_key(key)
        &&& self.bindings[key].operation_id == operation_id
        &&& match outcome {
            OutcomeView::Created(_) => self.bindings[key].phase == ResumePhase::Launching,
            OutcomeView::FocusFailed { pane_id, .. } =>
                self.bindings[key].session.pane_session_id == Some(pane_id),
        }
    }

    /// After a report. One that does not concern the record changes nothing.
    pub open spec fn settled(
        self,
        key: KeyView,
        operation_id: u128,
        outcome: OutcomeView,
        now: i128,
    ) -> ResumesView {
        let binding = self.bindings[key];
        if !self.accepts(key, operation_id, outcome) {
            self
        } else {
            match outcome {
                OutcomeView::Created(Ok(pane_id)) => if self.closed.contains(pane_id) {
                    self.with_binding(key, binding.ended()).pruned()
                } else {
                    self.with_binding(key, binding.bound(pane_id, now)).pruned()
                },
                OutcomeView::Created(Err(_)) => self.without_binding(key).pruned(),
                OutcomeView::FocusFailed { error, .. } => if reports_missing_pane(error) {
                    self.with_binding(key, binding.ended()).pruned()
                } else {
                    self.pruned()
                },
            }
        }
    }

    /// After the terminal said that a pane closed or failed.
    pub open spec fn pane_closed(self, pane_id: Seq<char>) -> ResumesView {
        ResumesView {
            bindings: self.bindings.map_values(
                |binding: BindingView| binding.after_closure(pane_id),
            ),
            closed: if self.any_launching() {
                self.closed.insert(pane_id)
            } else {
                self.closed
            },
            ..self
        }
    }

    /// Whether the record of a session is shown in the row that lists it: the
    /// source lists the session, and its pane has been answered for.
    pub open spec fn overlays(self, key: KeyView, source: SourceView) -> bool {
        self.keys.contains(key) && key.listed_by(source) && self.bindings[key].phase
            != ResumePhase::Launching
    }

    /// A row of a source's list, brought up to date. Where two rows list one
    /// session, the first of them is.
    pub open spec fn merged_row(
        self,
        rows: Seq<SessionView>,
        source: SourceView,
        i: int,
    ) -> SessionView {
        match key_of(rows[i]) {
            Some(key) => if self.overlays(key, source) && is_first_of_its_key(rows, i) {
                overlay(rows[i], self.bindings[key].session)
            } else {
                rows[i]
            },
            None => rows[i],
        }
    }

    /// Whether a session that the source's list misses has to be added: it is the
    /// source's, and it is not over.
    pub open spec fn is_missing(
        self,
        rows: Seq<SessionView>,
        source: SourceView,
        key: KeyView,
    ) -> bool {
        key.listed_by(source) && self.bindings[key].phase != ResumePhase::Ended && !lists(rows, key)
    }

    /// The test for [`Self::is_missing`].
    pub open spec fn missing_from(
        self,
        rows: Seq<SessionView>,
        source: SourceView,
    ) -> spec_fn(KeyView) -> bool {
        |key: KeyView| self.is_missing(rows, source, key)
    }

    /// The sessions that a source's list misses, in the order in which they were
    /// first resumed.
    pub open spec fn missing_rows(
        self,
        rows: Seq<SessionView>,
        source: SourceView,
    ) -> Seq<SessionView> {
        self.keys.filter(self.missing_from(rows, source)).map_values(
            |key: KeyView| self.bindings[key].session,
        )
    }

    /// The list of a source, with the resumed sessions of that source in it.
    pub open spec fn merged_rows(
        self,
        rows: Seq<SessionView>,
        source: SourceView,
    ) -> Seq<SessionView> {
        Seq::new(rows.len(), |i: int| self.merged_row(rows, source, i)) + self.missing_rows(
            rows,
            source,
        )
    }
}

impl ResumesView {
    /// The same with the first identities alone.
    pub open spec fn prefix(self, n: int) -> ResumesView {
        ResumesView { keys: self.keys.take(n), ..self }
    }

    /// Each row of a merged list is a row of the source's list, with the identity
    /// unchanged, or the session of a record.
    pub(crate) proof fn lemma_merged_row_keys(self, rows: Seq<SessionView>, source: SourceView, n: int)
        requires
            self.well_formed(),
            0 <= n <= self.keys.len(),
        ensures
            self.prefix(n).merged_rows(rows, source).len() >= rows.len(),
            forall|i: int|
                0 <= i < rows.len() ==> key_of(
                    #[trigger] self.prefix(n).merged_rows(rows, source)[i],
                ) == key_of(rows[i]),
            forall|i: int|
                rows.len() <= i < self.prefix(n).merged_rows(rows, source).len()
                    ==> self.keys.take(n).contains(
                    key_of(#[trigger] self.prefix(n).merged_rows(rows, source)[i]).unwrap(),
                ) && key_of(self.prefix(n).merged_rows(rows, source)[i]) is Some,
    {
        let part = self.prefix(n);
        let merged = part.merged_rows(rows, source);
        let wanted = part.missing_from(rows, source);
        let added = part.keys.filter(wanted);
        assert forall|i: int| rows.len() <= i < merged.len() implies part.keys.contains(
            key_of(#[trigger] merged[i]).unwrap(),
        ) && key_of(merged[i]) is Some by {
            let key = added[i - rows.len()];
            assert(added.contains(key));
            part.keys.lemma_filter_contains_rev(wanted, key);
            let at = part.keys.index_of(key);
            assert(self.keys[at] == key);
            assert(self.keys.contains(key));
            assert(self.bindings.contains_key(key));
            assert(merged[i] == self.bindings[key].session);
        }
    }

    /// How the next record changes a merged list.
    pub(crate) proof fn lemma_merge_step(self, rows: Seq<SessionView>, source: SourceView, n: int)
        requires
            self.well_formed(),
            0 <= n < self.keys.len(),
        ensures
            ({
                let key = self.keys[n];
                let binding = self.bindings[key];
                let before = self.prefix(n).merged_rows(rows, source);
                let after = self.prefix(n + 1).merged_rows(rows, source);
                &&& !key.listed_by(source) ==> after == before
                &&& key.listed_by(source) && !lists(before, key) ==> after == if binding.phase
                    == ResumePhase::Ended {
                    before
                } else {
                    before.push(binding.session)
                }
                &&& forall|i: int|
                    key.listed_by(source) && 0 <= i < before.len() && key_of(#[trigger] before[i])
                        == Some(key) && is_first_of_its_key(before, i) ==> after
                        == if binding.phase == ResumePhase::Launching {
                        before
                    } else {
                        before.update(i, overlay(before[i], binding.session))
                    }
            }),
    {
        let key = self.keys[n];
        let binding = self.bindings[key];
        let part = self.prefix(n);
        let next = self.prefix(n + 1);
        let before = part.merged_rows(rows, source);
        let after = next.merged_rows(rows, source);
        let wanted = part.missing_from(rows, source);
        assert(next.keys =~= part.keys.push(key));
        assert(self.keys.contains(key));
        assert(!part.keys.contains(key)) by {
            if part.keys.contains(key) {
                let at = part.keys.index_of(key);
                assert(self.keys[at] == key);
            }
        }
        self.lemma_merged_row_keys(rows, source, n);
        assert(wanted =~= next.missing_from(rows, source));
        assert(next.keys.filter(wanted) =~= if wanted(key) {
            part.keys.filter(wanted).push(key)
        } else {
            part.keys.filter(wanted)
        }) by {
            reveal(Seq::filter);
            assert(next.keys.drop_last() =~= part.keys);
        }
        assert(next.missing_rows(rows, source) =~= if wanted(key) {
            part.missing_rows(rows, source).push(binding.session)
        } else {
            part.missing_rows(rows, source)
        });
        assert forall|k: KeyView| next.keys.contains(k) <==> (part.keys.contains(k) || k == key) by {
            if part.keys.contains(k) {
                let at = part.keys.index_of(k);
                assert(next.keys[at] == k);
            }
            assert(next.keys[n] == key);
        }
        assert forall|i: int| 0 <= i < rows.len() implies #[trigger] next.merged_row(
            rows,
            source,
            i,
        ) == if key_of(rows[i]) == Some(key) && next.overlays(key, source) && is_first_of_its_key(
            rows,
            i,
        ) {
            overlay(rows[i], binding.session)
        } else {
            part.merged_row(rows, source, i)
        } by {}
        assert forall|i: int| 0 <= i < rows.len() implies before[i] == part.merged_row(
            rows,
            source,
            i,
        ) by {}
        assert(lists(before, key) == lists(rows, key)) by {
            if lists(before, key) {
                let i = choose|i: int| 0 <= i < before.len() && key_of(#[trigger] before[i]) == Some(key);
                assert(key_of(rows[i]) == Some(key));
            }
            if lists(rows, key) {
                let i = choose|i: int| 0 <= i < rows.len() && key_of(#[trigger] rows[i]) == Some(key);
                assert(key_of(before[i]) == Some(key));
            }
        }
        if !key.listed_by(source) {
            assert(after =~= before);
        } else if !lists(before, key) {
            assert(after =~= if binding.phase == ResumePhase::Ended {
                before
            } else {
                before.push(binding.session)
            });
        }
        assert forall|i: int|
            key.listed_by(source) && 0 <= i < before.len() && key_of(#[trigger] before[i])
                == Some(key) && is_first_of_its_key(before, i) implies after == if binding.phase
            == ResumePhase::Launching {
            before
        } else {
            before.update(i, overlay(before[i], binding.session))
        } by {
            assert(i < rows.len());
            assert(key_of(rows[i]) == Some(key));
            assert(lists(rows, key));
            assert(is_first_of_its_key(rows, i)) by {
                assert forall|j: int| 0 <= j < i implies key_of(#[trigger] rows[j]) != key_of(rows[i]) by {
                    assert(key_of(before[j]) != key_of(before[i]));
                }
            }
            assert(forall|j: int|
                0 <= j < rows.len() && j != i && is_first_of_its_key(rows, j) ==> key_of(
                    #[trigger] rows[j],
                ) != Some(key));
            if binding.phase == ResumePhase::Launching {
                assert(after =~= before);
            } else {
                assert(after =~= before.update(i, overlay(before[i], binding.session)));
            }
        }
    }
}

/// What holds of each record at all times.
pub open spec fn binding_well_formed(key: KeyView, binding: BindingView) -> bool {
    &&& key_of(binding.session) == Some(key)
    &&& match binding.phase {
        ResumePhase::Launching => true,
        ResumePhase::Bound => binding.session.status == AgentStatus::Idle
            && binding.session.pane_session_id is Some,
        ResumePhase::Ended => binding.session.status == AgentStatus::Ended
            && binding.session.pane_session_id is None,
    }
}

} // verus!
