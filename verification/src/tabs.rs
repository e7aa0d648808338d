//! The tabs of the helper, as far as they show remote sessions.

use crate::key::{KeyView, SourceView, SshSessionKey, SshSessionsSource};
use crate::model::ResumesView;
use crate::resumes::SshResumes;
use crate::session::{session_views, AgentSession, SessionView};
use crate::text::optional_text;
use vstd::prelude::*;

verus! {

/// The sessions view of a tab.
#[derive(Debug)]
pub struct AgentsView {
    /// The source whose sessions the view lists, unless it lists local ones.
    pub ssh_source: Option<SshSessionsSource>,
    /// The failure that the view shows.
    pub ssh_error: Option<String>,
    /// The rows of the view, once they have been loaded.
    pub snapshot: Option<Vec<AgentSession>>,
}

/// A tab of the helper.
#[derive(Debug)]
pub struct TabSession {
    pub id: String,
    pub agents_view: AgentsView,
    /// The row that is selected in the sessions view.
    pub selected: Option<usize>,
}

/// What a [`TabSession`] denotes.
#[verifier::ext_equal]
pub struct TabView {
    pub id: Seq<char>,
    pub source: Option<SourceView>,
    pub error: Option<Seq<char>>,
    pub rows: Option<Seq<SessionView>>,
    pub selected: Option<usize>,
}

impl View for TabSession {
    type V = TabView;

    open spec fn view(&self) -> TabView {
        TabView {
            id: self.id@,
            source: match self.agents_view.ssh_source {
                Some(source) => Some(source@),
                None => None,
            },
            error: optional_text(self.agents_view.ssh_error),
            rows: match self.agents_view.snapshot {
                Some(rows) => Some(session_views(rows@)),
                None => None,
            },
            selected: self.selected,
        }
    }
}

/// What each of a sequence of tabs denotes.
pub open spec fn tab_views(tabs: Seq<TabSession>) -> Seq<TabView> {
    tabs.map_values(|tab: TabSession| tab@)
}

impl TabView {
    /// Whether the tab lists the sessions among which the one with this identity is.
    pub open spec fn shows(self, key: KeyView) -> bool {
        self.source matches Some(source) && key.listed_by(source)
    }

    /// The tab after the failure to show for one session changed.
    pub open spec fn with_error(self, key: KeyView, error: Option<Seq<char>>) -> TabView {
        if self.shows(key) {
            TabView { error, ..self }
        } else {
            self
        }
    }

    /// Whether the tab lists remote sessions and has loaded them.
    pub open spec fn lists_remote(self) -> bool {
        self.source is Some && self.rows is Some
    }

    /// The tab with its rows brought up to date.
    pub open spec fn refreshed(self, resumes: ResumesView) -> TabView {
        if self.lists_remote() {
            TabView {
                rows: Some(resumes.merged_rows(self.rows.unwrap(), self.source.unwrap())),
                ..self
            }
        } else {
            self
        }
    }

    /// The selection of the tab: its first row where none is selected.
    pub open spec fn selection(self) -> (Seq<char>, usize) {
        (
            self.id,
            match self.selected {
                Some(selected) => selected,
                None => 0,
            },
        )
    }
}

/// The tabs after the failure to show for one session changed.
pub open spec fn tabs_with_error(
    tabs: Seq<TabView>,
    key: KeyView,
    error: Option<Seq<char>>,
) -> Seq<TabView> {
    tabs.map_values(|tab: TabView| tab.with_error(key, error))
}

/// The tabs with their rows brought up to date.
pub open spec fn tabs_refreshed(tabs: Seq<TabView>, resumes: ResumesView) -> Seq<TabView> {
    tabs.map_values(|tab: TabView| tab.refreshed(resumes))
}

/// The tabs whose rows are brought up to date, each with its selection.
pub open spec fn remote_selections(tabs: Seq<TabView>) -> Seq<(Seq<char>, usize)> {
    tabs.filter(|tab: TabView| tab.lists_remote()).map_values(|tab: TabView| tab.selection())
}

/// The source of the tab with this identifier, the first of them if there are more.
pub open spec fn source_of_tab(tabs: Seq<TabView>, id: Seq<char>) -> Option<SourceView>
    decreases tabs.len(),
{
    if tabs.len() == 0 {
        None
    } else if tabs[0].id == id {
        tabs[0].source
    } else {
        source_of_tab(tabs.drop_first(), id)
    }
}

/// A tab whose selection has to be put back after its rows changed.
#[derive(Debug, PartialEq, Eq)]
pub struct TabSelection {
    pub tab_id: String,
    pub selected: usize,
}

impl View for TabSelection {
    type V = (Seq<char>, usize);

    open spec fn view(&self) -> (Seq<char>, usize) {
        (self.tab_id@, self.selected)
    }
}

/// What each of a sequence of selections denotes.
pub open spec fn selection_views(selections: Seq<TabSelection>) -> Seq<(Seq<char>, usize)> {
    selections.map_values(|selection: TabSelection| selection@)
}

impl TabSession {
    /// Whether the tab lists the sessions among which the one with this identity is.
    pub fn shows(&self, key: &SshSessionKey) -> (shown: bool)
        ensures
            shown == self@.shows(key@),
    {
        match &self.agents_view.ssh_source {
            Some(source) => key.matches_source(source),
            None => false,
        }
    }

    /// Brings the rows of the tab up to date, and gives its selection back if there
    /// were rows to bring up to date.
    pub fn refresh(&mut self, resumes: &SshResumes) -> (selection: Option<TabSelection>)
        requires
            resumes@.well_formed(),
        ensures
            final(self)@ == old(self)@.refreshed(resumes@),
            match selection {
                Some(selection) => old(self)@.lists_remote() && selection@
                    == old(self)@.selection(),
                None => !old(self)@.lists_remote(),
            },
    {
        match &self.agents_view.ssh_source {
            Some(source) => match &mut self.agents_view.snapshot {
                Some(rows) => {
                    resumes.merge_rows(rows, source);
                },
                None => return None,
            },
            None => return None,
        }
        let selected: usize = match self.selected {
            Some(selected) => selected,
            None => 0,
        };
        Some(TabSelection { tab_id: self.id.clone(), selected })
    }
}

} // verus!
