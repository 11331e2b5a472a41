//! The tabs of the monitor's surface, with their display names and stable
//! identifiers.

use vstd::prelude::*;

use crate::textops::str_eq;

verus! {

/// The available tabs.
#[derive(Debug, Clone, Copy, PartialEq, Eq, Structural)]
pub enum AppTab {
    Validators,
    GossipNodes,
    FindVoters,
    LeaderSchedule,
    Logs,
    Update,
}

/// The display name of each tab.
pub open spec fn tab_name_spec(t: AppTab) -> Seq<char> {
    match t {
        AppTab::Validators => "\u{1f4ca} Validators"@,
        AppTab::GossipNodes => "\u{1f310} Gossip Nodes"@,
        AppTab::FindVoters => "\u{1f50d} Find Voters"@,
        AppTab::LeaderSchedule => "\u{23f0} Leader Schedule"@,
        AppTab::Logs => "\u{1f4cb} Logs"@,
        AppTab::Update => "\u{1f504} Update"@,
    }
}

/// The stable identifier of each tab, as persisted state names it.
pub open spec fn tab_id_spec(t: AppTab) -> Seq<char> {
    match t {
        AppTab::Validators => "Validators"@,
        AppTab::GossipNodes => "GossipNodes"@,
        AppTab::FindVoters => "FindVoters"@,
        AppTab::LeaderSchedule => "LeaderSchedule"@,
        AppTab::Logs => "Logs"@,
        AppTab::Update => "Update"@,
    }
}

/// The tab a stored identifier names; an unknown identifier falls back to
/// the validators tab.
pub open spec fn tab_from_id_spec(id: Seq<char>) -> AppTab {
    if id == "Validators"@ {
        AppTab::Validators
    } else if id == "GossipNodes"@ {
        AppTab::GossipNodes
    } else if id == "FindVoters"@ {
        AppTab::FindVoters
    } else if id == "LeaderSchedule"@ {
        AppTab::LeaderSchedule
    } else if id == "Logs"@ {
        AppTab::Logs
    } else if id == "Update"@ {
        AppTab::Update
    } else {
        AppTab::Validators
    }
}

impl AppTab {
    /// The display name of this tab.
    pub fn name(self) -> (r: &'static str)
        ensures
            r@ == tab_name_spec(self),
    {
        match self {
            AppTab::Validators => "\u{1f4ca} Validators",
            AppTab::GossipNodes => "\u{1f310} Gossip Nodes",
            AppTab::FindVoters => "\u{1f50d} Find Voters",
            AppTab::LeaderSchedule => "\u{23f0} Leader Schedule",
            AppTab::Logs => "\u{1f4cb} Logs",
            AppTab::Update => "\u{1f504} Update",
        }
    }

    /// The stable identifier of this tab.
    pub fn id(self) -> (r: &'static str)
        ensures
            r@ == tab_id_spec(self),
    {
        match self {
            AppTab::Validators => "Validators",
            AppTab::GossipNodes => "GossipNodes",
            AppTab::FindVoters => "FindVoters",
            AppTab::LeaderSchedule => "LeaderSchedule",
            AppTab::Logs => "Logs",
            AppTab::Update => "Update",
        }
    }

    /// The tab a stored identifier names, defaulting to the validators tab.
    pub fn from_id(id: &str) -> (r: AppTab)
        ensures
            r == tab_from_id_spec(id@),
    {
        if str_eq(id, "Validators") {
            AppTab::Validators
        } else if str_eq(id, "GossipNodes") {
            AppTab::GossipNodes
        } else if str_eq(id, "FindVoters") {
            AppTab::FindVoters
        } else if str_eq(id, "LeaderSchedule") {
            AppTab::LeaderSchedule
        } else if str_eq(id, "Logs") {
            AppTab::Logs
        } else if str_eq(id, "Update") {
            AppTab::Update
        } else {
            AppTab::Validators
        }
    }
}

/// Identifiers round-trip: every tab's identifier names that tab again.
pub proof fn lemma_tab_id_round_trip(t: AppTab)
    ensures
        tab_from_id_spec(tab_id_spec(t)) == t,
{
    reveal_strlit("Validators");
    reveal_strlit("GossipNodes");
    reveal_strlit("FindVoters");
    reveal_strlit("LeaderSchedule");
    reveal_strlit("Logs");
    reveal_strlit("Update");
    assert("Validators"@.len() == 10);
    assert("GossipNodes"@.len() == 11);
    assert("FindVoters"@.len() == 10);
    assert("LeaderSchedule"@.len() == 14);
    assert("Logs"@.len() == 4);
    assert("Update"@.len() == 6);
    assert("FindVoters"@[0] == 'F');
    assert("Validators"@[0] == 'V');
}

} // verus!
