//! Data model and derivation logic for the Solana RPC layer: validator and
//! gossip-node records, skip-rate calculation, epoch arithmetic,
//! slot-to-wallclock projection, time-delta formatting, block scanning for
//! voters, and leader-schedule construction.
//!
//! Everything here computes on plain values.  The network round trips
//! themselves live with the caller, which fetches raw data, converts it to
//! the record types of this module, and calls these functions.

use vstd::multiset::Multiset;
use vstd::prelude::*;

use crate::decimal::{dec_str, u64_to_string};
use crate::textops::{contains_seq, join_spaces, join_with_spaces, lower_of, str_contains, str_eq,
    to_lowercase};

verus! {

/// The well-known vote program, whose instructions record validator votes.
pub const VOTE_PROGRAM_ID: &'static str = "Vote111111111111111111111111111111111111111";

/// Slots per epoch after warmup, as an approximation for skip-rate purposes.
pub const SLOTS_PER_EPOCH_APPROX: u64 = 432000;

/// A skip rate is measured in hundredths of a percent; this is 100%.
pub const SKIP_RATE_FULL: u64 = 10000;

/// One error per failure category, so callers can branch without matching on
/// strings: transport failure, malformed response, unparseable domain
/// identifier, or absent data.
#[derive(Debug, Clone, PartialEq)]
pub enum RpcError {
    /// The endpoint could not be reached or the call failed in transit.
    Transport(String),
    /// The response arrived but its shape was not the expected one.
    Decode(String),
    /// A domain identifier, such as a public key string, failed to parse.
    DomainParse(String),
    /// The requested data is absent, such as a slot with no block.
    NotFound(String),
}

/// The text of each error, its category first.
pub open spec fn rpc_error_text(e: RpcError) -> Seq<char> {
    match e {
        RpcError::Transport(m) => "transport error: "@ + m@,
        RpcError::Decode(m) => "malformed response: "@ + m@,
        RpcError::DomainParse(m) => "invalid identifier: "@ + m@,
        RpcError::NotFound(m) => "not found: "@ + m@,
    }
}

impl RpcError {
    /// A short description naming the category and the cause.
    pub fn describe(&self) -> (r: String)
        ensures
            r@ == rpc_error_text(*self),
    {
        match self {
            RpcError::Transport(m) => {
                let mut s = String::from_str("transport error: ");
                s.append(m.as_str());
                s
            },
            RpcError::Decode(m) => {
                let mut s = String::from_str("malformed response: ");
                s.append(m.as_str());
                s
            },
            RpcError::DomainParse(m) => {
                let mut s = String::from_str("invalid identifier: ");
                s.append(m.as_str());
                s
            },
            RpcError::NotFound(m) => {
                let mut s = String::from_str("not found: ");
                s.append(m.as_str());
                s
            },
        }
    }
}

/// What base-58 decoding makes of a public key string: the canonical base-58
/// form when the string decodes to a 32-byte key, nothing otherwise.  A
/// function of the characters alone.
pub uninterp spec fn pubkey_canonical(s: Seq<char>) -> Option<Seq<char>>;

/// The base-58 form of the all-zero public key, the safe default for
/// unparseable keys.
pub open spec fn default_pubkey_str() -> Seq<char> {
    "11111111111111111111111111111111"@
}

/// The canonical form of a key string, or the all-zero key where it does not
/// parse.
pub open spec fn pubkey_or_default(s: Seq<char>) -> Seq<char> {
    match pubkey_canonical(s) {
        Some(c) => c,
        None => default_pubkey_str(),
    }
}

/// Relies on `solana_pubkey::Pubkey`: `from_str` base-58-decodes the string
/// and `Display` re-encodes the decoded key; both depend on the characters
/// alone.
#[verifier::external_body]
pub(crate) fn parse_pubkey(s: &str) -> (r: Option<String>)
    ensures
        r matches Some(k) ==> pubkey_canonical(s@) == Some(k@),
        r is Some <==> pubkey_canonical(s@) is Some,
{
    match s.parse::<solana_pubkey::Pubkey>() {
        Ok(p) => Some(p.to_string()),
        Err(_) => None,
    }
}

/// Parses a public key string, substituting the all-zero key where it does
/// not parse, as batch conversions do rather than failing the whole batch.
pub fn parse_pubkey_or_default(s: &str) -> (r: String)
    ensures
        r@ == pubkey_or_default(s@),
{
    match parse_pubkey(s) {
        Some(k) => k,
        None => String::from_str("11111111111111111111111111111111"),
    }
}

/// A validator's voting and staking snapshot.
#[derive(Debug, Clone, PartialEq)]
pub struct ValidatorInfo {
    /// Identity public key of the validator, base-58.
    pub identity: String,
    /// Vote account public key, base-58.
    pub vote_account: String,
    /// Commission percentage (0-100).
    pub commission: u8,
    /// Last slot the validator voted on.
    pub last_vote: u64,
    /// Last rooted slot.
    pub root_slot: u64,
    /// Total vote credits earned in the latest epoch entry.
    pub vote_credits: u64,
    /// Historical epoch credits: (epoch, cumulative credits, previous
    /// cumulative credits).
    pub epoch_credits: Vec<(u64, u64, u64)>,
    /// Stake delegated to this validator, in lamports.
    pub activated_stake: u64,
    /// Software version string.
    pub version: String,
    /// Skip rate in hundredths of a percent (0 to 10000).
    pub skip_rate: u64,
}

/// The raw fields of one vote account as the RPC reports them, as plain
/// values.
#[derive(Debug, Clone, PartialEq)]
pub struct VoteAccountRecord {
    /// Identity public key string, possibly malformed.
    pub node_pubkey: String,
    /// Vote account public key string, possibly malformed.
    pub vote_pubkey: String,
    /// Commission percentage (0-100).
    pub commission: u8,
    /// Last slot voted on.
    pub last_vote: u64,
    /// Last rooted slot.
    pub root_slot: u64,
    /// Stake in lamports.
    pub activated_stake: u64,
    /// (epoch, cumulative credits, previous cumulative credits) history.
    pub epoch_credits: Vec<(u64, u64, u64)>,
}

/// The skip rate derived from the latest epoch-credit entry, in hundredths
/// of a percent: the share of the approximate epoch length that the gap
/// between current and previous cumulative credits fails to cover.  Zero
/// whenever the entry shows no new credits.
pub open spec fn skip_rate_bps_spec(credits: u64, prev_credits: u64) -> int {
    if credits > prev_credits {
        let gap = credits - prev_credits;
        if gap >= SLOTS_PER_EPOCH_APPROX {
            0
        } else {
            ((SLOTS_PER_EPOCH_APPROX - gap) * (SKIP_RATE_FULL as int)) / (
            SLOTS_PER_EPOCH_APPROX as int)
        }
    } else {
        0
    }
}

impl ValidatorInfo {
    /// Derives `(vote_credits, skip_rate)` from an epoch-credit history:
    /// both come from the last entry alone, and degenerate input gives zero
    /// rather than an error.  A history whose last entry earns no new
    /// credits has skip rate 0.
    pub fn calculate_skip_rate(epoch_credits: &Vec<(u64, u64, u64)>) -> (r: (u64, u64))
        ensures
            epoch_credits@.len() == 0 ==> r == (0u64, 0u64),
            epoch_credits@.len() > 0 ==> r.0 == epoch_credits@.last().1 && r.1 as int
                == skip_rate_bps_spec(epoch_credits@.last().1, epoch_credits@.last().2),
            epoch_credits@.len() > 0 && epoch_credits@.last().1 <= epoch_credits@.last().2 ==> r.1
                == 0,
            r.1 <= SKIP_RATE_FULL,
    {
        if epoch_credits.len() == 0 {
            (0, 0)
        } else {
            let last = epoch_credits[epoch_credits.len() - 1];
            let credits = last.1;
            let prev_credits = last.2;
            if credits > prev_credits {
                let gap = credits - prev_credits;
                if gap >= SLOTS_PER_EPOCH_APPROX {
                    (credits, 0)
                } else {
                    let bps = ((SLOTS_PER_EPOCH_APPROX - gap) * SKIP_RATE_FULL)
                        / SLOTS_PER_EPOCH_APPROX;
                    (credits, bps)
                }
            } else {
                (credits, 0)
            }
        }
    }

    /// Builds a validator record from raw vote-account fields, substituting
    /// the all-zero key for unparseable key strings and deriving the skip
    /// rate from the epoch-credit history.
    pub fn from_rpc_vote_account(vote_account: VoteAccountRecord) -> (r: ValidatorInfo)
        ensures
            r.identity@ == pubkey_or_default(vote_account.node_pubkey@),
            r.vote_account@ == pubkey_or_default(vote_account.vote_pubkey@),
            r.commission == vote_account.commission,
            r.last_vote == vote_account.last_vote,
            r.root_slot == vote_account.root_slot,
            r.activated_stake == vote_account.activated_stake,
            r.epoch_credits == vote_account.epoch_credits,
            r.version@ == "Unknown"@,
            vote_account.epoch_credits@.len() == 0 ==> r.vote_credits == 0 && r.skip_rate == 0,
            vote_account.epoch_credits@.len() > 0 ==> r.vote_credits
                == vote_account.epoch_credits@.last().1 && r.skip_rate as int
                == skip_rate_bps_spec(
                vote_account.epoch_credits@.last().1,
                vote_account.epoch_credits@.last().2,
            ),
            r.skip_rate <= SKIP_RATE_FULL,
    {
        let identity = parse_pubkey_or_default(vote_account.node_pubkey.as_str());
        let vote_account_pubkey = parse_pubkey_or_default(vote_account.vote_pubkey.as_str());
        let (vote_credits, skip_rate) = Self::calculate_skip_rate(&vote_account.epoch_credits);
        ValidatorInfo {
            identity,
            vote_account: vote_account_pubkey,
            commission: vote_account.commission,
            last_vote: vote_account.last_vote,
            root_slot: vote_account.root_slot,
            vote_credits,
            epoch_credits: vote_account.epoch_credits,
            activated_stake: vote_account.activated_stake,
            version: String::from_str("Unknown"),
            skip_rate,
        }
    }
}

/// For any two epoch-credit histories whose last entries earn new credits,
/// the derived skip rate lies between 0% and 100%, never rises as the
/// credit gap `credits - prev_credits` grows, and reaches 0 once the gap
/// covers the whole approximate epoch.  `calculate_skip_rate` derives its
/// result from exactly these two fields of the last entry.
pub proof fn lemma_skip_rate_monotone(c1: u64, p1: u64, c2: u64, p2: u64)
    requires
        c1 > p1,
        c2 > p2,
        c1 - p1 <= c2 - p2,
    ensures
        0 <= skip_rate_bps_spec(c1, p1) <= SKIP_RATE_FULL,
        skip_rate_bps_spec(c2, p2) <= skip_rate_bps_spec(c1, p1),
        c2 - p2 >= SLOTS_PER_EPOCH_APPROX ==> skip_rate_bps_spec(c2, p2) == 0,
{
    let g1 = c1 - p1;
    let g2 = c2 - p2;
    let e = SLOTS_PER_EPOCH_APPROX as int;
    let f = SKIP_RATE_FULL as int;
    if g1 < e {
        vstd::arithmetic::div_mod::lemma_div_pos_is_pos((e - g1) * f, e);
        vstd::arithmetic::div_mod::lemma_div_is_ordered((e - g1) * f, e * f, e);
        vstd::arithmetic::div_mod::lemma_div_by_multiple(f, e);
    }
    if g2 < e {
        vstd::arithmetic::div_mod::lemma_div_is_ordered((e - g2) * f, (e - g1) * f, e);
        vstd::arithmetic::div_mod::lemma_div_pos_is_pos((e - g2) * f, e);
    }
}

/// A network peer's advertised endpoints.
#[derive(Debug, Clone, PartialEq)]
pub struct GossipNodeInfo {
    /// The node's identity public key, base-58.
    pub pubkey: String,
    /// Gossip address, or `Unknown` where the peer advertises none.
    pub gossip: String,
    /// Transaction processing unit address.
    pub tpu: Option<String>,
    /// RPC endpoint address.
    pub rpc: Option<String>,
    /// QUIC address of the TPU.
    pub tpu_quic: Option<String>,
    /// Software version string.
    pub version: Option<String>,
    /// Feature set identifier.
    pub feature_set: Option<u32>,
    /// Shred version for cluster compatibility.
    pub shred_version: Option<u16>,
}

/// The raw fields of one gossip peer as the RPC reports them, addresses
/// already rendered as strings.
#[derive(Debug, Clone, PartialEq)]
pub struct ContactInfoRecord {
    /// Identity public key string, possibly malformed.
    pub pubkey: String,
    /// Gossip address, where advertised.
    pub gossip: Option<String>,
    /// TPU address, where advertised.
    pub tpu: Option<String>,
    /// RPC address, where advertised.
    pub rpc: Option<String>,
    /// TPU QUIC address, where advertised.
    pub tpu_quic: Option<String>,
    /// Software version, where known.
    pub version: Option<String>,
    /// Feature set identifier, where known.
    pub feature_set: Option<u32>,
    /// Shred version, where known.
    pub shred_version: Option<u16>,
}

impl GossipNodeInfo {
    /// Builds a gossip-node record from raw contact fields.  An unparseable
    /// peer identity becomes the all-zero key rather than failing the batch,
    /// and a missing gossip address becomes `Unknown`.
    pub fn from_rpc_contact_info(contact_info: ContactInfoRecord) -> (r: GossipNodeInfo)
        ensures
            r.pubkey@ == pubkey_or_default(contact_info.pubkey@),
            contact_info.gossip matches Some(g) ==> r.gossip == g,
            contact_info.gossip is None ==> r.gossip@ == "Unknown"@,
            r.tpu == contact_info.tpu,
            r.rpc == contact_info.rpc,
            r.tpu_quic == contact_info.tpu_quic,
            r.version == contact_info.version,
            r.feature_set == contact_info.feature_set,
            r.shred_version == contact_info.shred_version,
    {
        let pubkey = parse_pubkey_or_default(contact_info.pubkey.as_str());
        let gossip = match contact_info.gossip {
            Some(g) => g,
            None => String::from_str("Unknown"),
        };
        GossipNodeInfo {
            pubkey,
            gossip,
            tpu: contact_info.tpu,
            rpc: contact_info.rpc,
            tpu_quic: contact_info.tpu_quic,
            version: contact_info.version,
            feature_set: contact_info.feature_set,
            shred_version: contact_info.shred_version,
        }
    }
}

/// Handle for one RPC endpoint: a lightweight value the caller clones freely;
/// it holds no connection state.
#[derive(Debug, Clone)]
pub struct SolanaClient {
    /// The endpoint URL every operation of this client runs against.
    pub rpc_url: String,
}

impl SolanaClient {
    /// Creates a client handle for the given endpoint.
    pub fn new(rpc_url: String) -> (r: SolanaClient)
        ensures
            r.rpc_url == rpc_url,
    {
        SolanaClient { rpc_url }
    }
}

/// The first absolute slot of an epoch.  The current epoch starts where the
/// current slot index rewinds to; epoch 0 starts at slot 0; an epoch still
/// inside the warmup period is halved to approximate the network's epoch
/// growth; later epochs follow the first normal slot at a fixed length.
pub open spec fn epoch_start_slot_spec(
    target_epoch: int,
    current_epoch: int,
    current_absolute_slot: int,
    current_slot_index: int,
    slots_per_epoch: int,
    first_normal_slot: int,
) -> int {
    if target_epoch == current_epoch {
        current_absolute_slot - current_slot_index
    } else if target_epoch == 0 {
        0
    } else if target_epoch * slots_per_epoch < first_normal_slot {
        (target_epoch * slots_per_epoch) / 2
    } else {
        first_normal_slot + (target_epoch - 1) * slots_per_epoch
    }
}

/// Nearest integer to `a / b` for positive `b`, ties rounded away from zero.
pub open spec fn round_div(a: int, b: int) -> int
    recommends
        b > 0,
{
    if a >= 0 {
        (2 * a + b) / (2 * b)
    } else {
        -((2 * (-a) + b) / (2 * b))
    }
}

/// The wallclock second projected for a slot at the assumed rate of 2.5
/// slots per second: an estimate, not on-chain history, which drifts near
/// epoch boundaries and during slowdowns.
pub open spec fn projected_timestamp_spec(slot: int, current_slot: int, current_timestamp: int)
    -> int {
    current_timestamp + round_div(2 * (slot - current_slot), 5)
}

/// Largest slot number the timestamp projection accepts; far above any slot
/// the network can reach, yet small enough that the projected second always
/// fits a signed 64-bit value.
pub const MAX_PROJECTION_SLOT: u64 = 0x1000_0000_0000_0000;

/// Largest magnitude of a current timestamp the projection accepts.
pub const MAX_PROJECTION_TIME: i64 = 0x1000_0000_0000_0000;

impl SolanaClient {
    /// The first absolute slot of `target_epoch`, derived from the current
    /// epoch's position and the epoch schedule.  The branching mirrors the
    /// network's variable-length warmup epochs followed by fixed-length
    /// normal ones.
    pub fn calculate_epoch_start_slot(
        target_epoch: u64,
        current_epoch: u64,
        current_absolute_slot: u64,
        current_slot_index: u64,
        slots_per_epoch: u64,
        first_normal_slot: u64,
    ) -> (r: u64)
        requires
            target_epoch == current_epoch ==> current_slot_index <= current_absolute_slot,
            target_epoch != current_epoch && target_epoch != 0 && target_epoch * slots_per_epoch
                >= first_normal_slot ==> first_normal_slot + (target_epoch - 1) * slots_per_epoch
                <= u64::MAX,
        ensures
            r as int == epoch_start_slot_spec(
                target_epoch as int,
                current_epoch as int,
                current_absolute_slot as int,
                current_slot_index as int,
                slots_per_epoch as int,
                first_normal_slot as int,
            ),
            target_epoch == current_epoch ==> r == current_absolute_slot - current_slot_index,
            target_epoch == 0 && current_epoch != 0 ==> r == 0,
    {
        if target_epoch == current_epoch {
            current_absolute_slot - current_slot_index
        } else if target_epoch == 0 {
            0
        } else {
            proof {
                vstd::arithmetic::mul::lemma_mul_upper_bound(
                    target_epoch as int,
                    u64::MAX as int,
                    slots_per_epoch as int,
                    u64::MAX as int,
                );
            }
            let product: u128 = (target_epoch as u128) * (slots_per_epoch as u128);
            if product < first_normal_slot as u128 {
                (product / 2) as u64
            } else {
                let tail: u128 = ((target_epoch - 1) as u128) * (slots_per_epoch as u128);
                proof {
                    vstd::arithmetic::mul::lemma_mul_upper_bound(
                        (target_epoch - 1) as int,
                        u64::MAX as int,
                        slots_per_epoch as int,
                        u64::MAX as int,
                    );
                    vstd::arithmetic::mul::lemma_mul_inequality(
                        (target_epoch - 1) as int,
                        target_epoch as int,
                        slots_per_epoch as int,
                    );
                }
                ((first_normal_slot as u128) + tail) as u64
            }
        }
    }

    /// Projects the local wallclock second of `slot` from the current slot
    /// and the current timestamp, at the assumed network rate of 2.5 slots
    /// per second.  The result is an estimate only.
    pub fn slot_to_timestamp(slot: u64, current_slot: u64, current_timestamp: i64) -> (r: i64)
        requires
            slot <= MAX_PROJECTION_SLOT,
            current_slot <= MAX_PROJECTION_SLOT,
            -MAX_PROJECTION_TIME <= current_timestamp <= MAX_PROJECTION_TIME,
        ensures
            r as int == projected_timestamp_spec(
                slot as int,
                current_slot as int,
                current_timestamp as int,
            ),
    {
        let diff: i128 = slot as i128 - current_slot as i128;
        let a: i128 = 2 * diff;
        let secs: i128 = if a >= 0 {
            (2 * a + 5) / 10
        } else {
            -((2 * (-a) + 5) / 10)
        };
        proof {
            assert(secs == round_div(a as int, 5));
            assert(-(4 * MAX_PROJECTION_SLOT as int) <= 2 * (a as int) <= 4 * (
            MAX_PROJECTION_SLOT as int));
        }
        let ts: i128 = current_timestamp as i128 + secs;
        ts as i64
    }
}

/// The units of an absolute time difference in seconds.
pub open spec fn diff_days(a: int) -> int {
    a / 86400
}

pub open spec fn diff_hours(a: int) -> int {
    (a % 86400) / 3600
}

pub open spec fn diff_minutes(a: int) -> int {
    (a % 3600) / 60
}

pub open spec fn diff_seconds(a: int) -> int {
    a % 60
}

/// The non-zero leading unit parts of an absolute difference, largest unit
/// first; seconds appear only when days and hours are both zero.
pub open spec fn diff_parts(a: int) -> Seq<Seq<char>> {
    let days = diff_days(a);
    let hours = diff_hours(a);
    let minutes = diff_minutes(a);
    let seconds = diff_seconds(a);
    (if days > 0 {
        seq![dec_str(days as nat).push('d')]
    } else {
        Seq::empty()
    }) + (if hours > 0 {
        seq![dec_str(hours as nat).push('h')]
    } else {
        Seq::empty()
    }) + (if minutes > 0 {
        seq![dec_str(minutes as nat).push('m')]
    } else {
        Seq::empty()
    }) + (if seconds > 0 && days == 0 && hours == 0 {
        seq![dec_str(seconds as nat).push('s')]
    } else {
        Seq::empty()
    })
}

/// The compact human form of the difference from `current` to `target`:
/// the unit parts joined with spaces, `now` when every shown unit is zero,
/// with ` ago` appended when the target lies in the past.
pub open spec fn time_diff_spec(current: int, target: int) -> Seq<char> {
    let diff = target - current;
    let a = if diff >= 0 {
        diff
    } else {
        -diff
    };
    let parts = diff_parts(a);
    if parts.len() == 0 {
        "now"@
    } else if diff < 0 {
        join_spaces(parts) + " ago"@
    } else {
        join_spaces(parts)
    }
}

impl SolanaClient {
    /// Formats the difference between two timestamps compactly, largest
    /// units first: for example `1m 30s`, `1h 1m ago`, or `now` for a zero
    /// difference.
    pub fn format_time_difference(current_timestamp: i64, target_timestamp: i64) -> (r: String)
        ensures
            r@ == time_diff_spec(current_timestamp as int, target_timestamp as int),
    {
        let diff: i128 = target_timestamp as i128 - current_timestamp as i128;
        let abs_diff: i128 = if diff >= 0 {
            diff
        } else {
            -diff
        };
        let abs64: u64 = abs_diff as u64;
        let days: u64 = abs64 / 86400;
        let hours: u64 = (abs64 % 86400) / 3600;
        let minutes: u64 = (abs64 % 3600) / 60;
        let seconds: u64 = abs64 % 60;
        proof {
            assert(abs64 as int == abs_diff as int);
            assert(days as int == diff_days(abs64 as int));
            assert(hours as int == diff_hours(abs64 as int));
            assert(minutes as int == diff_minutes(abs64 as int));
            assert(seconds as int == diff_seconds(abs64 as int));
        }
        let mut parts: Vec<String> = Vec::new();
        if days > 0 {
            let mut p = u64_to_string(days);
            p.append("d");
            parts.push(p);
        }
        if hours > 0 {
            let mut p = u64_to_string(hours);
            p.append("h");
            parts.push(p);
        }
        if minutes > 0 {
            let mut p = u64_to_string(minutes);
            p.append("m");
            parts.push(p);
        }
        if seconds > 0 && days == 0 && hours == 0 {
            let mut p = u64_to_string(seconds);
            p.append("s");
            parts.push(p);
        }
        proof {
            reveal_strlit("d");
            reveal_strlit("h");
            reveal_strlit("m");
            reveal_strlit("s");
            assert(parts.deep_view() =~~= diff_parts(abs64 as int));
        }
        if parts.len() == 0 {
            String::from_str("now")
        } else {
            let joined = join_with_spaces(&parts);
            if diff < 0 {
                let mut s = joined;
                s.append(" ago");
                s
            } else {
                joined
            }
        }
    }
}

/// A vote observed in a block: the voting account paired with the signature
/// of the transaction that carried the vote.
#[derive(Debug, Clone, PartialEq)]
pub struct VoteTransactionInfo {
    /// Vote account public key, base-58.
    pub vote_account: String,
    /// First signature of the carrying transaction.
    pub signature: String,
}

/// One compiled instruction of a decoded transaction, as plain values.
#[derive(Debug, Clone, PartialEq)]
pub struct InstructionRecord {
    /// Index into the account keys naming the program called.
    pub program_id_index: u8,
    /// Indexes into the account keys of the accounts referenced.
    pub accounts: Vec<u8>,
}

/// One decoded transaction of a block, as plain values: what the scanner
/// reads of it.
#[derive(Debug, Clone, PartialEq)]
pub struct TransactionRecord {
    /// The transaction's signatures, base-58, first one first.
    pub signatures: Vec<String>,
    /// The static account keys of the message, base-58.
    pub account_keys: Vec<String>,
    /// The compiled instructions of the message.
    pub instructions: Vec<InstructionRecord>,
}

/// Voting activity observed in one block.
#[derive(Debug, Clone, PartialEq)]
pub struct SlotVoterInfo {
    /// The slot whose block was scanned.
    pub slot: u64,
    /// The unique voter accounts, in order of first appearance.
    pub voters: Vec<String>,
    /// Every vote with the signature of its transaction, in block order;
    /// duplicates stay here, deduplication applies to `voters` alone.
    pub vote_transactions: Vec<VoteTransactionInfo>,
    /// The number of unique voters, cached at construction.
    pub total_voters: usize,
}

/// The identifier of the vote program, as character data.
pub open spec fn vote_program_str() -> Seq<char> {
    "Vote111111111111111111111111111111111111111"@
}

/// The signature a scan attributes to a transaction: its first, or
/// `unknown` where it has none.
pub open spec fn tx_signature_spec(tx: TransactionRecord) -> Seq<char> {
    if tx.signatures@.len() > 0 {
        tx.signatures@[0]@
    } else {
        "unknown"@
    }
}

/// The vote account of instruction `j`: the first account it references,
/// provided the instruction calls the vote program, references at least one
/// account, and that account's index is in range.
pub open spec fn instr_vote_account(tx: TransactionRecord, j: int, program: Seq<char>) -> Option<
    Seq<char>,
> {
    let ins = tx.instructions@[j];
    if ins.program_id_index < tx.account_keys@.len() && tx.account_keys@[ins.program_id_index as int]@
        == program && ins.accounts@.len() > 0 && (ins.accounts@[0] as int)
        < tx.account_keys@.len() {
        Some(tx.account_keys@[ins.accounts@[0] as int]@)
    } else {
        None
    }
}

/// The (vote account, signature) pairs contributed by the first `j`
/// instructions of one transaction, in instruction order.
pub open spec fn tx_votes(tx: TransactionRecord, program: Seq<char>, sig: Seq<char>, j: int) -> Seq<
    (Seq<char>, Seq<char>),
>
    decreases j,
{
    if j <= 0 {
        Seq::empty()
    } else {
        let prev = tx_votes(tx, program, sig, j - 1);
        match instr_vote_account(tx, j - 1, program) {
            Some(acct) => prev.push((acct, sig)),
            None => prev,
        }
    }
}

/// All pairs contributed by the first `i` transactions of a block, in order.
pub open spec fn block_votes(txs: Seq<TransactionRecord>, program: Seq<char>, i: int) -> Seq<
    (Seq<char>, Seq<char>),
>
    decreases i,
{
    if i <= 0 {
        Seq::empty()
    } else {
        block_votes(txs, program, i - 1) + tx_votes(
            txs[i - 1],
            program,
            tx_signature_spec(txs[i - 1]),
            txs[i - 1].instructions@.len() as int,
        )
    }
}

/// The accounts of a pair sequence, in order.
pub open spec fn pairs_accounts(s: Seq<(Seq<char>, Seq<char>)>) -> Seq<Seq<char>> {
    s.map_values(|p: (Seq<char>, Seq<char>)| p.0)
}

/// `acc` extended with the first occurrences of `xs` not already present.
pub open spec fn dedup_extend(acc: Seq<Seq<char>>, xs: Seq<Seq<char>>) -> Seq<Seq<char>>
    decreases xs.len(),
{
    if xs.len() == 0 {
        acc
    } else {
        let prev = dedup_extend(acc, xs.drop_last());
        if prev.contains(xs.last()) {
            prev
        } else {
            prev.push(xs.last())
        }
    }
}

/// Extending by a concatenation extends by each half in turn.
pub proof fn lemma_dedup_extend_concat(
    acc: Seq<Seq<char>>,
    xs: Seq<Seq<char>>,
    ys: Seq<Seq<char>>,
)
    ensures
        dedup_extend(acc, xs + ys) == dedup_extend(dedup_extend(acc, xs), ys),
    decreases ys.len(),
{
    if ys.len() == 0 {
        assert(xs + ys =~= xs);
    } else {
        lemma_dedup_extend_concat(acc, xs, ys.drop_last());
        assert((xs + ys).drop_last() =~= xs + ys.drop_last());
        assert((xs + ys).last() == ys.last());
    }
}

/// Extending holds exactly the members of both sequences, and keeps the
/// accumulator free of duplicates.
pub proof fn lemma_dedup_extend_props(acc: Seq<Seq<char>>, xs: Seq<Seq<char>>)
    ensures
        forall|a: Seq<char>|
            #[trigger] dedup_extend(acc, xs).contains(a) <==> acc.contains(a) || xs.contains(a),
        (forall|i: int, j: int| 0 <= i < j < acc.len() ==> acc[i] != acc[j]) ==> forall|
            i: int,
            j: int,
        |
            0 <= i < j < dedup_extend(acc, xs).len() ==> dedup_extend(acc, xs)[i] != dedup_extend(
                acc,
                xs,
            )[j],
    decreases xs.len(),
{
    if xs.len() == 0 {
        assert forall|a: Seq<char>| #[trigger] xs.contains(a) implies false by {
        }
    } else {
        let xs0 = xs.drop_last();
        lemma_dedup_extend_props(acc, xs0);
        let prev = dedup_extend(acc, xs0);
        assert forall|a: Seq<char>| #[trigger] xs.contains(a) implies xs0.contains(a) || a
            == xs.last() by {
            let i = choose|i: int| 0 <= i < xs.len() && xs[i] == a;
            if i < xs.len() - 1 {
                assert(xs0[i] == a);
            }
        }
        assert forall|a: Seq<char>| xs0.contains(a) implies #[trigger] xs.contains(a) by {
            let i = choose|i: int| 0 <= i < xs0.len() && xs0[i] == a;
            assert(xs[i] == a);
        }
        assert(xs.contains(xs.last())) by {
            assert(xs[xs.len() - 1] == xs.last());
        }
        if !prev.contains(xs.last()) {
            assert forall|a: Seq<char>| #[trigger] prev.push(xs.last()).contains(a) implies
                prev.contains(a) || a == xs.last() by {
                let i = choose|i: int| 0 <= i < prev.push(xs.last()).len() && prev.push(
                    xs.last(),
                )[i] == a;
                if i < prev.len() {
                    assert(prev[i] == a);
                }
            }
            assert forall|a: Seq<char>| prev.contains(a) implies #[trigger] prev.push(
                xs.last(),
            ).contains(a) by {
                let i = choose|i: int| 0 <= i < prev.len() && prev[i] == a;
                assert(prev.push(xs.last())[i] == a);
            }
            assert(prev.push(xs.last()).contains(xs.last())) by {
                assert(prev.push(xs.last())[prev.len() as int] == xs.last());
            }
            if forall|i: int, j: int| 0 <= i < j < acc.len() ==> acc[i] != acc[j] {
                assert forall|i: int, j: int|
                    0 <= i < j < prev.push(xs.last()).len() implies prev.push(xs.last())[i]
                    != prev.push(xs.last())[j] by {
                    if j < prev.len() {
                        assert(prev[i] != prev[j]);
                    } else {
                        assert(prev.contains(prev[i])) by {
                            assert(prev[i] == prev[i]);
                        }
                    }
                }
            }
        }
    }
}

/// The voter list of a scan is exactly the set-deduplicated projection of
/// its ordered vote list: every voting account appears in it, and none
/// appears twice; its cached count is its length.
pub proof fn lemma_voters_deduplicated(slot: u64, txs: Seq<TransactionRecord>, r: SlotVoterInfo)
    requires
        scan_result_matches(slot, txs, r),
    ensures
        forall|i: int, j: int| 0 <= i < j < r.voters.deep_view().len() ==> r.voters.deep_view()[i]
            != r.voters.deep_view()[j],
        forall|a: Seq<char>|
            #[trigger] r.voters.deep_view().contains(a) <==> pairs_accounts(
                block_votes(txs, vote_program_str(), txs.len() as int),
            ).contains(a),
        r.total_voters == r.voters@.len(),
{
    let votes = block_votes(txs, vote_program_str(), txs.len() as int);
    lemma_dedup_extend_props(Seq::empty(), pairs_accounts(votes));
    assert forall|a: Seq<char>| #[trigger] Seq::<Seq<char>>::empty().contains(a) implies false by {
    }
}

/// The pairs a sequence of vote records stands for.
pub open spec fn vti_pairs(s: Seq<VoteTransactionInfo>) -> Seq<(Seq<char>, Seq<char>)> {
    s.map_values(|t: VoteTransactionInfo| (t.vote_account@, t.signature@))
}

/// Whether `v` holds a string whose characters are `s`.
fn contains_string(v: &Vec<String>, s: &str) -> (r: bool)
    ensures
        r == v.deep_view().contains(s@),
{
    let mut i: usize = 0;
    while i < v.len()
        invariant
            i <= v.len(),
            forall|k: int| 0 <= k < i ==> v.deep_view()[k] != s@,
        decreases v.len() - i,
    {
        if str_eq(v[i].as_str(), s) {
            proof {
                assert(v.deep_view()[i as int] == s@);
            }
            return true;
        }
        i += 1;
    }
    false
}

impl SolanaClient {
    /// Scans one decoded transaction: every instruction that calls the vote
    /// program and references at least one in-range account contributes its
    /// first referenced account, paired with the given signature, to the
    /// ordered list; each account not yet seen also joins the voter list.
    /// A malformed instruction whose index is out of range is skipped.
    pub fn extract_voters_from_transaction(
        tx: &TransactionRecord,
        vote_program_id: &str,
        voters: &mut Vec<String>,
        vote_transactions: &mut Vec<VoteTransactionInfo>,
        signature: &str,
    )
        ensures
            vti_pairs(final(vote_transactions)@) == vti_pairs(old(vote_transactions)@) + tx_votes(
                *tx,
                vote_program_id@,
                signature@,
                tx.instructions@.len() as int,
            ),
            final(voters).deep_view() == dedup_extend(
                old(voters).deep_view(),
                pairs_accounts(
                    tx_votes(*tx, vote_program_id@, signature@, tx.instructions@.len() as int),
                ),
            ),
    {
        let ghost vt0 = vote_transactions@;
        let ghost voters0 = voters.deep_view();
        let mut j: usize = 0;
        while j < tx.instructions.len()
            invariant
                j <= tx.instructions@.len(),
                vti_pairs(vote_transactions@) == vti_pairs(vt0) + tx_votes(
                    *tx,
                    vote_program_id@,
                    signature@,
                    j as int,
                ),
                voters.deep_view() == dedup_extend(
                    voters0,
                    pairs_accounts(tx_votes(*tx, vote_program_id@, signature@, j as int)),
                ),
            decreases tx.instructions@.len() - j,
        {
            let ghost votes_before = tx_votes(*tx, vote_program_id@, signature@, j as int);
            let ins = &tx.instructions[j];
            let pidx = ins.program_id_index as usize;
            if pidx < tx.account_keys.len() && str_eq(
                tx.account_keys[pidx].as_str(),
                vote_program_id,
            ) && ins.accounts.len() > 0 {
                let vidx = ins.accounts[0] as usize;
                if vidx < tx.account_keys.len() {
                    let vote_account = tx.account_keys[vidx].clone();
                    proof {
                        assert(instr_vote_account(*tx, j as int, vote_program_id@) == Some(
                            vote_account@,
                        ));
                    }
                    if !contains_string(voters, vote_account.as_str()) {
                        voters.push(vote_account.clone());
                    }
                    let ghost vt_before = vote_transactions@;
                    let record = VoteTransactionInfo {
                        vote_account,
                        signature: String::from_str(signature),
                    };
                    vote_transactions.push(record);
                    proof {
                        let acct = tx.account_keys@[ins.accounts@[0] as int]@;
                        let votes_now = tx_votes(*tx, vote_program_id@, signature@, j + 1);
                        assert(votes_now == votes_before.push((acct, signature@)));
                        assert(vote_transactions@ == vt_before.push(record));
                        assert(record.vote_account@ == acct);
                        assert(record.signature@ == signature@);
                        assert(vti_pairs(vt0).len() == vt0.len());
                        assert(vti_pairs(vt_before).len() == vt_before.len());
                        assert(vti_pairs(vote_transactions@).len() == vt_before.len() + 1);
                        assert(vt_before.len() == vt0.len() + votes_before.len());
                        assert(votes_now.len() == votes_before.len() + 1);
                        assert forall|k: int| 0 <= k < vote_transactions@.len() implies vti_pairs(
                            vote_transactions@,
                        )[k] == (vti_pairs(vt0) + votes_now)[k] by {
                            if k < vt_before.len() {
                                assert(vti_pairs(vote_transactions@)[k] == vti_pairs(vt_before)[k]);
                                assert(vti_pairs(vt_before)[k] == (vti_pairs(vt0)
                                    + votes_before)[k]);
                            } else {
                                assert(vti_pairs(vote_transactions@)[k] == (
                                record.vote_account@,
                                record.signature@,
                                ));
                                assert((vti_pairs(vt0) + votes_now)[k] == votes_now[
                                votes_before.len() as int]);
                            }
                        }
                        assert(vti_pairs(vote_transactions@) =~~= vti_pairs(vt0) + votes_now);
                        let accts_now = pairs_accounts(votes_now);
                        assert(accts_now =~~= pairs_accounts(votes_before).push(acct));
                        assert(accts_now.drop_last() =~~= pairs_accounts(votes_before));
                        assert(accts_now.last() == acct);
                        assert(voters.deep_view() =~~= dedup_extend(voters0, accts_now));
                    }
                } else {
                    proof {
                        assert(instr_vote_account(*tx, j as int, vote_program_id@) is None);
                        assert(pairs_accounts(tx_votes(*tx, vote_program_id@, signature@, j + 1))
                            =~= pairs_accounts(votes_before));
                    }
                }
            } else {
                proof {
                    assert(instr_vote_account(*tx, j as int, vote_program_id@) is None);
                    assert(pairs_accounts(tx_votes(*tx, vote_program_id@, signature@, j + 1))
                        =~= pairs_accounts(votes_before));
                }
            }
            j += 1;
        }
    }
}

/// What a block scan returns for the given transactions: the full relation
/// between the input and every field of the result.
pub open spec fn scan_result_matches(slot: u64, txs: Seq<TransactionRecord>, r: SlotVoterInfo)
    -> bool {
    let votes = block_votes(txs, vote_program_str(), txs.len() as int);
    &&& r.slot == slot
    &&& vti_pairs(r.vote_transactions@) == votes
    &&& r.voters.deep_view() == dedup_extend(Seq::empty(), pairs_accounts(votes))
    &&& r.total_voters == r.voters@.len()
}

impl SolanaClient {
    /// Scans a block's decoded transactions for voting activity.  Each
    /// transaction contributes under its first signature, or `unknown` where
    /// it has none; the voter list deduplicates accounts in order of first
    /// appearance, and the ordered pair list keeps every vote.  A block with
    /// no transactions yields an empty result, not an error.
    pub fn scan_block_for_voters(slot: u64, transactions: &Vec<TransactionRecord>) -> (r:
        SlotVoterInfo)
        ensures
            scan_result_matches(slot, transactions@, r),
    {
        let mut voters: Vec<String> = Vec::new();
        let mut vote_transactions: Vec<VoteTransactionInfo> = Vec::new();
        let mut i: usize = 0;
        while i < transactions.len()
            invariant
                i <= transactions@.len(),
                vti_pairs(vote_transactions@) == block_votes(
                    transactions@,
                    vote_program_str(),
                    i as int,
                ),
                voters.deep_view() == dedup_extend(
                    Seq::empty(),
                    pairs_accounts(block_votes(transactions@, vote_program_str(), i as int)),
                ),
            decreases transactions@.len() - i,
        {
            let ghost votes_before = block_votes(transactions@, vote_program_str(), i as int);
            let tx = &transactions[i];
            let sig: String = if tx.signatures.len() > 0 {
                tx.signatures[0].clone()
            } else {
                String::from_str("unknown")
            };
            proof {
                assert(sig@ == tx_signature_spec(*tx));
                assert(VOTE_PROGRAM_ID@ == vote_program_str());
            }
            Self::extract_voters_from_transaction(
                tx,
                VOTE_PROGRAM_ID,
                &mut voters,
                &mut vote_transactions,
                sig.as_str(),
            );
            proof {
                let tv = tx_votes(
                    *tx,
                    vote_program_str(),
                    tx_signature_spec(*tx),
                    tx.instructions@.len() as int,
                );
                assert(block_votes(transactions@, vote_program_str(), i + 1) == votes_before + tv);
                assert(pairs_accounts(votes_before + tv) =~= pairs_accounts(votes_before)
                    + pairs_accounts(tv));
                lemma_dedup_extend_concat(
                    Seq::empty(),
                    pairs_accounts(votes_before),
                    pairs_accounts(tv),
                );
            }
            i += 1;
        }
        let total_voters = voters.len();
        SlotVoterInfo { slot, voters, vote_transactions, total_voters }
    }
}

/// Scanning is deterministic: two scans of the same block agree on the
/// voter list, the ordered pair list, and the cached count.
pub proof fn lemma_scan_idempotent(
    slot: u64,
    txs: Seq<TransactionRecord>,
    r1: SlotVoterInfo,
    r2: SlotVoterInfo,
)
    requires
        scan_result_matches(slot, txs, r1),
        scan_result_matches(slot, txs, r2),
    ensures
        r1.slot == r2.slot,
        r1.voters.deep_view() == r2.voters.deep_view(),
        vti_pairs(r1.vote_transactions@) == vti_pairs(r2.vote_transactions@),
        r1.total_voters == r2.total_voters,
{
    assert(r1.voters@.len() == r1.voters.deep_view().len());
    assert(r2.voters@.len() == r2.voters.deep_view().len());
}

/// Whether a vote record matches a lower-cased search needle in its account
/// or its signature.
pub open spec fn vote_tx_matches(tx: VoteTransactionInfo, needle: Seq<char>) -> bool {
    ||| contains_seq(lower_of(tx.vote_account@), needle)
    ||| contains_seq(lower_of(tx.signature@), needle)
}

/// The vote records of `s` that match the needle, in order.
pub open spec fn filtered_vote_transactions(s: Seq<VoteTransactionInfo>, needle: Seq<char>) -> Seq<
    VoteTransactionInfo,
>
    decreases s.len(),
{
    if s.len() == 0 {
        Seq::empty()
    } else if vote_tx_matches(s.last(), needle) {
        filtered_vote_transactions(s.drop_last(), needle).push(s.last())
    } else {
        filtered_vote_transactions(s.drop_last(), needle)
    }
}

fn clone_vote_tx(t: &VoteTransactionInfo) -> (r: VoteTransactionInfo)
    ensures
        r == *t,
{
    VoteTransactionInfo { vote_account: t.vote_account.clone(), signature: t.signature.clone() }
}

/// Keeps the vote records whose account or signature contains the search
/// term, case-insensitively; an empty term keeps everything.
pub fn filter_vote_transactions(
    vote_transactions: &Vec<VoteTransactionInfo>,
    search_term: &str,
) -> (r: Vec<VoteTransactionInfo>)
    ensures
        search_term@.len() == 0 ==> r@ == vote_transactions@,
        search_term@.len() > 0 ==> r@ == filtered_vote_transactions(
            vote_transactions@,
            lower_of(search_term@),
        ),
{
    let mut r: Vec<VoteTransactionInfo> = Vec::new();
    if search_term.is_empty() {
        let mut i: usize = 0;
        while i < vote_transactions.len()
            invariant
                i <= vote_transactions.len(),
                r@ == vote_transactions@.take(i as int),
            decreases vote_transactions.len() - i,
        {
            r.push(clone_vote_tx(&vote_transactions[i]));
            proof {
                assert(r@ =~= vote_transactions@.take(i + 1));
            }
            i += 1;
        }
        proof {
            assert(vote_transactions@.take(vote_transactions@.len() as int)
                =~= vote_transactions@);
        }
        return r;
    }
    let needle = to_lowercase(search_term);
    let mut i: usize = 0;
    while i < vote_transactions.len()
        invariant
            i <= vote_transactions.len(),
            needle@ == lower_of(search_term@),
            r@ == filtered_vote_transactions(vote_transactions@.take(i as int), needle@),
        decreases vote_transactions.len() - i,
    {
        let t = &vote_transactions[i];
        let account_l = to_lowercase(t.vote_account.as_str());
        let signature_l = to_lowercase(t.signature.as_str());
        let keep = str_contains(account_l.as_str(), needle.as_str()) || str_contains(
            signature_l.as_str(),
            needle.as_str(),
        );
        proof {
            assert(vote_transactions@.take(i + 1).drop_last() =~= vote_transactions@.take(i as int));
            assert(vote_transactions@.take(i + 1).last() == vote_transactions@[i as int]);
        }
        if keep {
            r.push(clone_vote_tx(t));
        }
        i += 1;
    }
    proof {
        assert(vote_transactions@.take(vote_transactions@.len() as int) =~= vote_transactions@);
    }
    r
}

/// One leader assignment of a validator.
#[derive(Debug, Clone, PartialEq)]
pub struct LeaderSlot {
    /// The epoch this slot belongs to.
    pub epoch: u64,
    /// The absolute slot number.
    pub slot: u64,
    /// Projected wallclock second of this slot: an estimate from the network
    /// slot rate, not authoritative history.
    pub timestamp: i64,
    /// Human-readable difference from the query's current time; it goes
    /// stale as time passes, so a display recomputes it.
    pub time_diff: String,
}

/// A validator's leader assignments for one epoch.
#[derive(Debug, Clone, PartialEq)]
pub struct LeaderScheduleInfo {
    /// The validator identity queried.
    pub validator_identity: String,
    /// The epoch the schedule covers.
    pub target_epoch: u64,
    /// The assignments, sorted ascending by absolute slot.
    pub leader_slots: Vec<LeaderSlot>,
    /// How many assignments there are.
    pub total_slots: usize,
    /// The first assignment, in schedule order, whose projected time lies
    /// after the query's current time; stale once time passes.
    pub next_leader_slot: Option<LeaderSlot>,
}

/// The fields a built assignment carries, all derived from its slot and the
/// query's time snapshot.
pub open spec fn leader_slot_wf(
    ls: LeaderSlot,
    epoch: u64,
    current_slot: u64,
    current_timestamp: i64,
) -> bool {
    &&& ls.epoch == epoch
    &&& ls.timestamp as int == projected_timestamp_spec(
        ls.slot as int,
        current_slot as int,
        current_timestamp as int,
    )
    &&& ls.time_diff@ == time_diff_spec(current_timestamp as int, ls.timestamp as int)
}

/// Whether the assignment at index `j` of the relative schedule projects to
/// a time after the current one.
pub open spec fn slot_is_future(
    rel: Seq<u64>,
    j: int,
    epoch_start_slot: u64,
    current_slot: u64,
    current_timestamp: i64,
) -> bool {
    projected_timestamp_spec(
        epoch_start_slot + rel[j],
        current_slot as int,
        current_timestamp as int,
    ) > current_timestamp
}

/// The slots of a sequence of assignments, in order.
pub open spec fn slots_of(s: Seq<LeaderSlot>) -> Seq<u64> {
    s.map_values(|l: LeaderSlot| l.slot)
}

/// The absolute slots a relative schedule names, in order.
pub open spec fn shifted_slots(rel: Seq<u64>, epoch_start_slot: u64) -> Seq<u64> {
    rel.map_values(|x: u64| (epoch_start_slot + x) as u64)
}

fn clone_leader_slot(l: &LeaderSlot) -> (r: LeaderSlot)
    ensures
        r == *l,
{
    LeaderSlot { epoch: l.epoch, slot: l.slot, timestamp: l.timestamp, time_diff: l.time_diff.clone() }
}

/// Sorts assignments ascending by slot; the result holds exactly the given
/// assignments.
fn sort_leader_slots(v: Vec<LeaderSlot>) -> (r: Vec<LeaderSlot>)
    ensures
        r@.len() == v@.len(),
        r@.to_multiset() == v@.to_multiset(),
        slots_of(r@).to_multiset() == slots_of(v@).to_multiset(),
        forall|i: int, j: int| 0 <= i < j < r@.len() ==> r@[i].slot <= r@[j].slot,
{
    broadcast use vstd::seq_lib::group_to_multiset_ensures;

    let mut working = v;
    let ghost v0 = working@;
    let mut result: Vec<LeaderSlot> = Vec::new();
    while working.len() > 0
        invariant
            result@.len() + working@.len() == v0.len(),
            result@.to_multiset().add(working@.to_multiset()) == v0.to_multiset(),
            slots_of(result@).to_multiset().add(slots_of(working@).to_multiset()) == slots_of(
                v0,
            ).to_multiset(),
            forall|i: int, j: int| 0 <= i < j < result@.len() ==> result@[i].slot
                <= result@[j].slot,
            forall|i: int, j: int|
                0 <= i < result@.len() && 0 <= j < working@.len() ==> result@[i].slot
                    <= working@[j].slot,
        decreases working@.len(),
    {
        let mut m: usize = 0;
        let mut k: usize = 1;
        while k < working.len()
            invariant
                working@.len() > 0,
                m < k,
                k <= working@.len(),
                forall|t: int| 0 <= t < k ==> working@[m as int].slot <= working@[t].slot,
            decreases working@.len() - k,
        {
            if working[k].slot < working[m].slot {
                m = k;
            }
            k += 1;
        }
        let ghost w_before = working@;
        let ghost r_before = result@;
        let x = working.remove(m);
        proof {
            assert(w_before.contains(w_before[m as int])) by {
                assert(w_before[m as int] == w_before[m as int]);
            }
            w_before.to_multiset_ensures();
            slots_of(w_before).to_multiset_ensures();
            r_before.to_multiset_ensures();
            slots_of(r_before).to_multiset_ensures();
            assert(working@ == w_before.remove(m as int));
            assert(x == w_before[m as int]);
            assert(w_before.remove(m as int).to_multiset() =~= w_before.to_multiset().remove(
                w_before[m as int],
            ));
            assert(working@.to_multiset() == w_before.to_multiset().remove(x));
            assert(slots_of(working@) =~= slots_of(w_before).remove(m as int));
            assert(slots_of(w_before).remove(m as int).to_multiset() =~= slots_of(
                w_before,
            ).to_multiset().remove(slots_of(w_before)[m as int]));
            assert(slots_of(w_before)[m as int] == x.slot);
            assert(slots_of(working@).to_multiset() == slots_of(w_before).to_multiset().remove(
                x.slot,
            ));
            assert(slots_of(w_before).contains(slots_of(w_before)[m as int])) by {
                assert(slots_of(w_before)[m as int] == slots_of(w_before)[m as int]);
            }
        }
        result.push(x);
        proof {
            assert(result@.to_multiset() == r_before.to_multiset().insert(x));
            assert(slots_of(result@) =~= slots_of(r_before).push(x.slot));
            assert(slots_of(result@).to_multiset() == slots_of(r_before).to_multiset().insert(
                x.slot,
            ));
            assert(result@.to_multiset().add(working@.to_multiset()) =~= r_before.to_multiset().add(
                w_before.to_multiset(),
            ));
            assert(slots_of(result@).to_multiset().add(slots_of(working@).to_multiset())
                =~= slots_of(r_before).to_multiset().add(slots_of(w_before).to_multiset()));
        }
    }
    proof {
        assert(working@.to_multiset().len() == 0);
        assert(working@.to_multiset() =~= Multiset::empty());
        assert(result@.to_multiset() =~= result@.to_multiset().add(working@.to_multiset()));
        assert(slots_of(working@).to_multiset().len() == 0);
        assert(slots_of(working@).to_multiset() =~= Multiset::empty());
        assert(slots_of(result@).to_multiset() =~= slots_of(result@).to_multiset().add(
            slots_of(working@).to_multiset(),
        ));
        assert(result@.to_multiset().len() == result@.len());
        assert(v0.to_multiset().len() == v0.len());
    }
    result
}

impl SolanaClient {
    /// Whether every assignment of a relative schedule lands within the
    /// range the timestamp projection accepts.
    pub fn leader_slots_in_bounds(relative_slots: &Vec<u64>, epoch_start_slot: u64) -> (r: bool)
        ensures
            r == forall|i: int|
                0 <= i < relative_slots@.len() ==> epoch_start_slot + #[trigger] relative_slots@[i]
                    <= MAX_PROJECTION_SLOT,
    {
        let mut i: usize = 0;
        while i < relative_slots.len()
            invariant
                i <= relative_slots@.len(),
                forall|t: int|
                    0 <= t < i ==> epoch_start_slot + #[trigger] relative_slots@[t]
                        <= MAX_PROJECTION_SLOT,
            decreases relative_slots@.len() - i,
        {
            if (epoch_start_slot as u128) + (relative_slots[i] as u128) > (
            MAX_PROJECTION_SLOT as u128) {
                return false;
            }
            i += 1;
        }
        true
    }

    /// Builds a validator's leader schedule from the relative slots the
    /// network assigns it, or from their absence.  An identity absent from
    /// the schedule map is success with no assignments, not an error.  Each
    /// assignment carries the projected time of its slot and a formatted
    /// difference from the query's current time; the list is sorted
    /// ascending by slot, and the next upcoming assignment is the first, in
    /// schedule order, whose projected time lies in the future.
    pub fn build_leader_schedule(
        identity: &str,
        target_epoch: u64,
        relative_slots: Option<Vec<u64>>,
        epoch_start_slot: u64,
        current_slot: u64,
        current_timestamp: i64,
    ) -> (r: LeaderScheduleInfo)
        requires
            relative_slots matches Some(rel) ==> forall|i: int|
                0 <= i < rel@.len() ==> epoch_start_slot + #[trigger] rel@[i]
                    <= MAX_PROJECTION_SLOT,
            current_slot <= MAX_PROJECTION_SLOT,
            -MAX_PROJECTION_TIME <= current_timestamp <= MAX_PROJECTION_TIME,
        ensures
            r.validator_identity@ == identity@,
            r.target_epoch == target_epoch,
            r.total_slots == r.leader_slots@.len(),
            relative_slots is None ==> r.total_slots == 0 && r.leader_slots@.len() == 0
                && r.next_leader_slot is None,
            relative_slots matches Some(rel) ==> {
                &&& r.leader_slots@.len() == rel@.len()
                &&& forall|i: int|
                    0 <= i < r.leader_slots@.len() ==> leader_slot_wf(
                        #[trigger] r.leader_slots@[i],
                        target_epoch,
                        current_slot,
                        current_timestamp,
                    )
                &&& forall|i: int, j: int|
                    0 <= i < j < r.leader_slots@.len() ==> r.leader_slots@[i].slot
                        <= r.leader_slots@[j].slot
                &&& slots_of(r.leader_slots@).to_multiset() == shifted_slots(
                    rel@,
                    epoch_start_slot,
                ).to_multiset()
                &&& (r.next_leader_slot is None <==> forall|j: int|
                    0 <= j < rel@.len() ==> !slot_is_future(
                        rel@,
                        j,
                        epoch_start_slot,
                        current_slot,
                        current_timestamp,
                    ))
                &&& (r.next_leader_slot matches Some(n) ==> exists|j: int|
                    0 <= j < rel@.len() && #[trigger] slot_is_future(
                        rel@,
                        j,
                        epoch_start_slot,
                        current_slot,
                        current_timestamp,
                    ) && n.slot as int == epoch_start_slot + rel@[j] && leader_slot_wf(
                        n,
                        target_epoch,
                        current_slot,
                        current_timestamp,
                    ) && forall|l: int|
                        0 <= l < j ==> !slot_is_future(
                            rel@,
                            l,
                            epoch_start_slot,
                            current_slot,
                            current_timestamp,
                        ))
            },
    {
        match relative_slots {
            None => LeaderScheduleInfo {
                validator_identity: String::from_str(identity),
                target_epoch,
                leader_slots: Vec::new(),
                total_slots: 0,
                next_leader_slot: None,
            },
            Some(rel) => {
                let mut built: Vec<LeaderSlot> = Vec::new();
                let mut next_leader_slot: Option<LeaderSlot> = None;
                let mut k: usize = 0;
                while k < rel.len()
                    invariant
                        k <= rel@.len(),
                        built@.len() == k,
                        current_slot <= MAX_PROJECTION_SLOT,
                        -MAX_PROJECTION_TIME <= current_timestamp <= MAX_PROJECTION_TIME,
                        forall|i: int|
                            0 <= i < rel@.len() ==> epoch_start_slot + #[trigger] rel@[i]
                                <= MAX_PROJECTION_SLOT,
                        forall|i: int|
                            0 <= i < k ==> (#[trigger] built@[i]).slot as int == epoch_start_slot
                                + rel@[i] && leader_slot_wf(
                                built@[i],
                                target_epoch,
                                current_slot,
                                current_timestamp,
                            ),
                        next_leader_slot is None <==> forall|j: int|
                            0 <= j < k ==> !slot_is_future(
                                rel@,
                                j,
                                epoch_start_slot,
                                current_slot,
                                current_timestamp,
                            ),
                        next_leader_slot matches Some(n) ==> exists|j: int|
                            0 <= j < k && #[trigger] slot_is_future(
                                rel@,
                                j,
                                epoch_start_slot,
                                current_slot,
                                current_timestamp,
                            ) && n.slot as int == epoch_start_slot + rel@[j] && leader_slot_wf(
                                n,
                                target_epoch,
                                current_slot,
                                current_timestamp,
                            ) && forall|l: int|
                                0 <= l < j ==> !slot_is_future(
                                    rel@,
                                    l,
                                    epoch_start_slot,
                                    current_slot,
                                    current_timestamp,
                                ),
                    decreases rel@.len() - k,
                {
                    let absolute_slot = epoch_start_slot + rel[k];
                    let timestamp = SolanaClient::slot_to_timestamp(
                        absolute_slot,
                        current_slot,
                        current_timestamp,
                    );
                    let time_diff = SolanaClient::format_time_difference(
                        current_timestamp,
                        timestamp,
                    );
                    let ls = LeaderSlot {
                        epoch: target_epoch,
                        slot: absolute_slot,
                        timestamp,
                        time_diff,
                    };
                    proof {
                        assert(leader_slot_wf(ls, target_epoch, current_slot, current_timestamp));
                        assert(slot_is_future(
                            rel@,
                            k as int,
                            epoch_start_slot,
                            current_slot,
                            current_timestamp,
                        ) == (timestamp > current_timestamp));
                    }
                    if timestamp > current_timestamp && next_leader_slot.is_none() {
                        next_leader_slot = Some(clone_leader_slot(&ls));
                    }
                    built.push(ls);
                    k += 1;
                }
                let ghost built_seq = built@;
                let leader_slots = sort_leader_slots(built);
                proof {
                    broadcast use vstd::seq_lib::group_to_multiset_ensures;

                    assert(slots_of(built_seq) =~= shifted_slots(rel@, epoch_start_slot));
                    assert forall|i: int| 0 <= i < leader_slots@.len() implies leader_slot_wf(
                        #[trigger] leader_slots@[i],
                        target_epoch,
                        current_slot,
                        current_timestamp,
                    ) by {
                        assert(leader_slots@.contains(leader_slots@[i])) by {
                            assert(leader_slots@[i] == leader_slots@[i]);
                        }
                        assert(leader_slots@.to_multiset().count(leader_slots@[i]) > 0);
                        assert(built_seq.to_multiset().count(leader_slots@[i]) > 0);
                        assert(built_seq.contains(leader_slots@[i]));
                        let w = choose|t: int|
                            0 <= t < built_seq.len() && built_seq[t] == leader_slots@[i];
                        assert(leader_slot_wf(
                            built_seq[w],
                            target_epoch,
                            current_slot,
                            current_timestamp,
                        ));
                    }
                }
                let total_slots = leader_slots.len();
                LeaderScheduleInfo {
                    validator_identity: String::from_str(identity),
                    target_epoch,
                    leader_slots,
                    total_slots,
                    next_leader_slot,
                }
            },
        }
    }
}

/// Checks a validator identity string, returning its canonical base-58 form,
/// or the domain-parse error that a schedule query reports for it.
pub fn validate_identity(identity: &str) -> (r: Result<String, RpcError>)
    ensures
        r matches Ok(k) ==> pubkey_canonical(identity@) == Some(k@),
        r is Ok <==> pubkey_canonical(identity@) is Some,
        r matches Err(e) ==> e matches RpcError::DomainParse(m) && m@ == identity@,
{
    match parse_pubkey(identity) {
        Some(k) => Ok(k),
        None => Err(RpcError::DomainParse(String::from_str(identity))),
    }
}

} // verus!
