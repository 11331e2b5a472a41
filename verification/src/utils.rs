//! Sorting configuration, network cluster definitions, status management for
//! in-flight operations, and display formatting.

use vstd::prelude::*;

use crate::decimal::{dec2_str, dec_str, u64_to_string, u64_to_string_pad2};
use crate::textops::str_eq;

verus! {

/// Direction for sorting table columns.
#[derive(Debug, Clone, Copy, PartialEq, Eq, Structural)]
pub enum SortDirection {
    Ascending,
    Descending,
}

/// The network clusters the monitor can point at.
#[derive(Debug, Clone, Copy, PartialEq, Eq, Structural)]
pub enum Cluster {
    Testnet,
    Mainnet,
}

/// The RPC URL of each cluster.
pub open spec fn cluster_url_spec(c: Cluster) -> Seq<char> {
    match c {
        Cluster::Testnet => "https://api.testnet.solana.com"@,
        Cluster::Mainnet => "https://api.mainnet-beta.solana.com"@,
    }
}

/// The display name of each cluster.
pub open spec fn cluster_name_spec(c: Cluster) -> Seq<char> {
    match c {
        Cluster::Testnet => "Testnet"@,
        Cluster::Mainnet => "Mainnet"@,
    }
}

impl Cluster {
    /// The RPC URL for this cluster.
    pub fn url(self) -> (r: &'static str)
        ensures
            r@ == cluster_url_spec(self),
    {
        match self {
            Cluster::Testnet => "https://api.testnet.solana.com",
            Cluster::Mainnet => "https://api.mainnet-beta.solana.com",
        }
    }

    /// The display name for this cluster.
    pub fn name(self) -> (r: &'static str)
        ensures
            r@ == cluster_name_spec(self),
    {
        match self {
            Cluster::Testnet => "Testnet",
            Cluster::Mainnet => "Mainnet",
        }
    }

    /// Every available cluster.
    pub fn all() -> (r: Vec<Cluster>)
        ensures
            r@ == seq![Cluster::Testnet, Cluster::Mainnet],
    {
        let mut v: Vec<Cluster> = Vec::new();
        v.push(Cluster::Testnet);
        v.push(Cluster::Mainnet);
        proof {
            assert(v@ =~= seq![Cluster::Testnet, Cluster::Mainnet]);
        }
        v
    }
}

/// Columns of the validator table that can be sorted on.
#[derive(Debug, Clone, Copy, PartialEq, Eq, Structural)]
pub enum SortColumn {
    Identity,
    VoteAccount,
    Commission,
    LastVote,
    RootSlot,
    VoteCredits,
    ActivatedStake,
    Version,
    SkipRate,
}

/// One column's sorting configuration.
#[derive(Debug, Clone, Copy, PartialEq, Eq, Structural)]
pub struct SortState {
    /// The column sorted on.
    pub column: SortColumn,
    /// The direction it is sorted in.
    pub direction: SortDirection,
    /// Position in the multi-column sort order, primary first.
    pub priority: usize,
}

impl SortState {
    /// Creates a sort state for a column.
    pub fn new(column: SortColumn, direction: SortDirection, priority: usize) -> (r: SortState)
        ensures
            r.column == column,
            r.direction == direction,
            r.priority == priority,
    {
        SortState { column, direction, priority }
    }
}

/// The indicator text of one sort state: an arrow, with the one-based
/// priority in parentheses where several columns sort at once.
pub open spec fn indicator_text(s: SortState, n_states: int) -> Seq<char> {
    let arrow = if s.direction == SortDirection::Ascending {
        "\u{25b2}"@
    } else {
        "\u{25bc}"@
    };
    if n_states == 1 || s.priority == 0 {
        " "@ + arrow
    } else {
        " "@ + arrow + "("@ + dec_str((s.priority + 1) as nat) + ")"@
    }
}

/// The indicator shown on a column header: empty where the column is not
/// sorted on, else the arrow of the first sort state naming the column.
pub fn get_sort_indicator(sort_states: &Vec<SortState>, column: SortColumn) -> (r: String)
    requires
        forall|i: int| 0 <= i < sort_states@.len() ==> (#[trigger] sort_states@[i]).priority
            < usize::MAX,
    ensures
        (forall|i: int| 0 <= i < sort_states@.len() ==> (#[trigger] sort_states@[i]).column
            != column) ==> r@ == Seq::<char>::empty(),
        forall|j: int|
            0 <= j < sort_states@.len() && (#[trigger] sort_states@[j]).column == column && (
            forall|l: int| 0 <= l < j ==> (#[trigger] sort_states@[l]).column != column) ==> r@
                == indicator_text(sort_states@[j], sort_states@.len() as int),
{
    let mut i: usize = 0;
    while i < sort_states.len()
        invariant
            i <= sort_states@.len(),
            forall|l: int| 0 <= l < i ==> (#[trigger] sort_states@[l]).column != column,
            forall|t: int| 0 <= t < sort_states@.len() ==> (#[trigger] sort_states@[t]).priority
                < usize::MAX,
        decreases sort_states@.len() - i,
    {
        let s = sort_states[i];
        if s.column == column {
            let mut r = String::from_str(" ");
            if s.direction == SortDirection::Ascending {
                r.append("\u{25b2}");
            } else {
                r.append("\u{25bc}");
            }
            if sort_states.len() == 1 || s.priority == 0 {
                return r;
            }
            r.append("(");
            let shown_priority = u64_to_string((s.priority + 1) as u64);
            r.append(shown_priority.as_str());
            r.append(")");
            return r;
        }
        i += 1;
    }
    String::new()
}

/// How long a validators fetch may show as loading, in milliseconds.
pub const VALIDATORS_TIMEOUT_MS: i64 = 5000;

/// How long a slot fetch may show as loading, in milliseconds.
pub const SLOT_TIMEOUT_MS: i64 = 3000;

/// How long a completion message stays up, in milliseconds.
pub const STATUS_DISPLAY_MS: i64 = 7000;

/// Loading flags and the status message for in-flight operations.  Time is
/// handed in explicitly as monotonic milliseconds, so every transition is
/// deterministic.
#[derive(Debug)]
pub struct StatusManager {
    /// The message currently shown.
    pub refresh_status: String,
    /// Whether a validators fetch is in flight.
    pub validators_loading: bool,
    /// Whether a slot-info fetch is in flight.
    pub slot_loading: bool,
    /// When the last validators fetch started, in monotonic milliseconds.
    pub last_validators_fetch: Option<i64>,
    /// When the last slot fetch started, in monotonic milliseconds.
    pub last_slot_fetch: Option<i64>,
}

impl Default for StatusManager {
    /// The idle state: nothing loading, status `Ready`.
    fn default() -> (r: Self)
        ensures
            r.refresh_status@ == "Ready"@,
            !r.validators_loading,
            !r.slot_loading,
            r.last_validators_fetch is None,
            r.last_slot_fetch is None,
    {
        StatusManager {
            refresh_status: String::from_str("Ready"),
            validators_loading: false,
            slot_loading: false,
            last_validators_fetch: None,
            last_slot_fetch: None,
        }
    }
}

/// The validators-timeout step: once a validators fetch has been loading
/// longer than its timeout, it stops loading and announces completion;
/// otherwise nothing changes.
pub open spec fn validators_timeout_rel(m: StatusManager, r: StatusManager, now: i64) -> bool {
    let fired = m.validators_loading && match m.last_validators_fetch {
        Some(s) => now - s > VALIDATORS_TIMEOUT_MS,
        None => false,
    };
    if fired {
        &&& !r.validators_loading
        &&& r.refresh_status@ == "Validators updated"@
        &&& r.slot_loading == m.slot_loading
        &&& r.last_validators_fetch == m.last_validators_fetch
        &&& r.last_slot_fetch == m.last_slot_fetch
    } else {
        r == m
    }
}

/// The slot-timeout step: once a slot fetch has been loading longer than its
/// timeout, it stops loading, and the slot status message yields to `Ready`
/// unless a validators fetch still runs; otherwise nothing changes.
pub open spec fn slot_timeout_rel(m: StatusManager, r: StatusManager, now: i64) -> bool {
    let fired = m.slot_loading && match m.last_slot_fetch {
        Some(s) => now - s > SLOT_TIMEOUT_MS,
        None => false,
    };
    if fired {
        &&& !r.slot_loading
        &&& r.validators_loading == m.validators_loading
        &&& r.last_validators_fetch == m.last_validators_fetch
        &&& r.last_slot_fetch == m.last_slot_fetch
        &&& if !m.validators_loading && m.refresh_status@ == "Updating slot info..."@ {
            r.refresh_status@ == "Ready"@
        } else {
            r.refresh_status == m.refresh_status
        }
    } else {
        r == m
    }
}

/// The auto-reset step: a completion message yields to `Ready` once it has
/// been up long enough and nothing is loading; otherwise nothing changes.
pub open spec fn auto_reset_rel(m: StatusManager, r: StatusManager, now: i64) -> bool {
    let fired = !m.validators_loading && !m.slot_loading && m.refresh_status@
        == "Validators updated"@ && match m.last_validators_fetch {
        Some(s) => now - s > STATUS_DISPLAY_MS,
        None => false,
    };
    if fired {
        &&& r.refresh_status@ == "Ready"@
        &&& r.validators_loading == m.validators_loading
        &&& r.slot_loading == m.slot_loading
        &&& r.last_validators_fetch == m.last_validators_fetch
        &&& r.last_slot_fetch == m.last_slot_fetch
    } else {
        r == m
    }
}

impl StatusManager {
    /// Starts tracking a validators refresh at the given time.
    pub fn start_validators_refresh(&mut self, now: i64)
        ensures
            final(self).validators_loading,
            final(self).refresh_status@ == "Fetching validators..."@,
            final(self).last_validators_fetch == Some(now),
            final(self).slot_loading == old(self).slot_loading,
            final(self).last_slot_fetch == old(self).last_slot_fetch,
    {
        self.validators_loading = true;
        self.refresh_status = String::from_str("Fetching validators...");
        self.last_validators_fetch = Some(now);
    }

    /// Starts tracking a slot-info refresh at the given time; the message
    /// changes only when no validators fetch runs.
    pub fn start_slot_refresh(&mut self, now: i64)
        ensures
            final(self).slot_loading,
            final(self).last_slot_fetch == Some(now),
            final(self).validators_loading == old(self).validators_loading,
            final(self).last_validators_fetch == old(self).last_validators_fetch,
            !old(self).validators_loading ==> final(self).refresh_status@
                == "Updating slot info..."@,
            old(self).validators_loading ==> final(self).refresh_status == old(
                self,
            ).refresh_status,
    {
        self.slot_loading = true;
        if !self.validators_loading {
            self.refresh_status = String::from_str("Updating slot info...");
        }
        self.last_slot_fetch = Some(now);
    }

    fn check_validators_timeout(&mut self, now: i64)
        ensures
            validators_timeout_rel(*old(self), *final(self), now),
    {
        if self.validators_loading {
            let fired = match self.last_validators_fetch {
                Some(start) => (now as i128) - (start as i128) > VALIDATORS_TIMEOUT_MS as i128,
                None => false,
            };
            if fired {
                self.validators_loading = false;
                self.refresh_status = String::from_str("Validators updated");
            }
        }
    }

    fn check_slot_timeout(&mut self, now: i64)
        ensures
            slot_timeout_rel(*old(self), *final(self), now),
    {
        if self.slot_loading {
            let fired = match self.last_slot_fetch {
                Some(start) => (now as i128) - (start as i128) > SLOT_TIMEOUT_MS as i128,
                None => false,
            };
            if fired {
                self.slot_loading = false;
                if !self.validators_loading && str_eq(
                    self.refresh_status.as_str(),
                    "Updating slot info...",
                ) {
                    self.refresh_status = String::from_str("Ready");
                }
            }
        }
    }

    fn auto_reset_status(&mut self, now: i64)
        ensures
            auto_reset_rel(*old(self), *final(self), now),
    {
        if !self.validators_loading && !self.slot_loading && str_eq(
            self.refresh_status.as_str(),
            "Validators updated",
        ) {
            let fired = match self.last_validators_fetch {
                Some(start) => (now as i128) - (start as i128) > STATUS_DISPLAY_MS as i128,
                None => false,
            };
            if fired {
                self.refresh_status = String::from_str("Ready");
            }
        }
    }

    /// Advances the loading states for the given time: the validators
    /// timeout, then the slot timeout, then the auto-reset of a lingering
    /// completion message, each as its transition relation states.
    pub fn update(&mut self, now: i64)
        ensures
            exists|m1: StatusManager, m2: StatusManager|
                #[trigger] validators_timeout_rel(*old(self), m1, now) && #[trigger] slot_timeout_rel(
                    m1,
                    m2,
                    now,
                ) && auto_reset_rel(m2, *final(self), now),
    {
        self.check_validators_timeout(now);
        let ghost m1 = *self;
        self.check_slot_timeout(now);
        let ghost m2 = *self;
        self.auto_reset_status(now);
        proof {
            assert(validators_timeout_rel(*old(self), m1, now) && slot_timeout_rel(m1, m2, now)
                && auto_reset_rel(m2, *self, now));
        }
    }

    /// Whether any operation is loading.
    pub fn is_loading(&self) -> (r: bool)
        ensures
            r == (self.validators_loading || self.slot_loading),
    {
        self.validators_loading || self.slot_loading
    }
}

/// The text `format_stake` produces: lamports rendered as SOL with two
/// decimal places, rounded to the nearest hundredth.
pub open spec fn stake_str_spec(stake: u64) -> Seq<char> {
    let hundredths = (stake + 5000000) / 10000000;
    dec_str((hundredths / 100) as nat) + "."@ + dec2_str((hundredths % 100) as nat) + " SOL"@
}

/// Formats a stake in lamports as SOL with two decimal places.
pub fn format_stake(stake: u64) -> (r: String)
    ensures
        r@ == stake_str_spec(stake),
{
    let hundredths: u64 = (((stake as u128) + 5000000) / 10000000) as u64;
    let mut r = u64_to_string(hundredths / 100);
    r.append(".");
    let frac = u64_to_string_pad2(hundredths % 100);
    r.append(frac.as_str());
    r.append(" SOL");
    r
}

/// The text `format_skip_rate` produces: hundredths of a percent rendered
/// as a percentage with two decimal places.
pub open spec fn skip_rate_str_spec(skip_rate: u64) -> Seq<char> {
    dec_str((skip_rate / 100) as nat) + "."@ + dec2_str((skip_rate % 100) as nat) + "%"@
}

/// Formats a skip rate, given in hundredths of a percent, as a percentage
/// with two decimal places.
pub fn format_skip_rate(skip_rate: u64) -> (r: String)
    ensures
        r@ == skip_rate_str_spec(skip_rate),
{
    let mut r = u64_to_string(skip_rate / 100);
    r.append(".");
    let frac = u64_to_string_pad2(skip_rate % 100);
    r.append(frac.as_str());
    r.append("%");
    r
}

} // verus!
