use solana_ui::tabs::AppTab;
use solana_ui::utils::{format_skip_rate, format_stake, get_sort_indicator, Cluster, SortColumn,
    SortDirection, SortState, StatusManager};

#[test]
fn test_format_stake() {
    assert_eq!(format_stake(1_000_000_000), "1.00 SOL");
    assert_eq!(format_stake(500_000_000), "0.50 SOL");
    assert_eq!(format_stake(0), "0.00 SOL");
}

#[test]
fn test_format_skip_rate() {
    assert_eq!(format_skip_rate(525), "5.25%");
    assert_eq!(format_skip_rate(0), "0.00%");
    assert_eq!(format_skip_rate(10000), "100.00%");
}

#[test]
fn test_cluster_urls() {
    assert_eq!(Cluster::Testnet.url(), "https://api.testnet.solana.com");
    assert_eq!(Cluster::Mainnet.url(), "https://api.mainnet-beta.solana.com");
}

#[test]
fn test_cluster_names_and_all() {
    assert_eq!(Cluster::Testnet.name(), "Testnet");
    assert_eq!(Cluster::Mainnet.name(), "Mainnet");
    assert_eq!(Cluster::all(), vec![Cluster::Testnet, Cluster::Mainnet]);
}

#[test]
fn test_sort_state_new() {
    let s = SortState::new(SortColumn::Commission, SortDirection::Descending, 2);
    assert_eq!(s.column, SortColumn::Commission);
    assert_eq!(s.direction, SortDirection::Descending);
    assert_eq!(s.priority, 2);
}

#[test]
fn test_sort_indicator_absent_column() {
    let states = vec![SortState::new(SortColumn::Identity, SortDirection::Ascending, 0)];
    assert_eq!(get_sort_indicator(&states, SortColumn::Version), "");
}

#[test]
fn test_sort_indicator_primary() {
    let states = vec![SortState::new(SortColumn::Identity, SortDirection::Ascending, 0)];
    assert_eq!(get_sort_indicator(&states, SortColumn::Identity), " \u{25b2}");
}

#[test]
fn test_sort_indicator_secondary() {
    let states = vec![
        SortState::new(SortColumn::Identity, SortDirection::Ascending, 0),
        SortState::new(SortColumn::Commission, SortDirection::Descending, 1),
    ];
    assert_eq!(get_sort_indicator(&states, SortColumn::Commission), " \u{25bc}(2)");
}

#[test]
fn test_status_manager_default() {
    let m = StatusManager::default();
    assert_eq!(m.refresh_status, "Ready");
    assert!(!m.validators_loading);
    assert!(!m.slot_loading);
    assert!(m.last_validators_fetch.is_none());
    assert!(m.last_slot_fetch.is_none());
}

#[test]
fn test_status_manager_validators_cycle() {
    let mut m = StatusManager::default();
    m.start_validators_refresh(1000);
    assert!(m.validators_loading);
    assert!(m.is_loading());
    assert_eq!(m.refresh_status, "Fetching validators...");
    assert_eq!(m.last_validators_fetch, Some(1000));

    // Within the timeout nothing changes.
    m.update(3000);
    assert!(m.validators_loading);

    // Past the timeout the fetch counts as done.
    m.update(6100);
    assert!(!m.validators_loading);
    assert_eq!(m.refresh_status, "Validators updated");

    // The completion message later yields to Ready.
    m.update(8200);
    assert_eq!(m.refresh_status, "Ready");
}

#[test]
fn test_status_manager_slot_cycle() {
    let mut m = StatusManager::default();
    m.start_slot_refresh(500);
    assert!(m.slot_loading);
    assert_eq!(m.refresh_status, "Updating slot info...");
    m.update(3600);
    assert!(!m.slot_loading);
    assert_eq!(m.refresh_status, "Ready");
}

#[test]
fn test_status_manager_slot_keeps_validators_message() {
    let mut m = StatusManager::default();
    m.start_validators_refresh(0);
    m.start_slot_refresh(0);
    assert_eq!(m.refresh_status, "Fetching validators...");
    // The slot timeout fires first and must not touch the validators text.
    m.update(3500);
    assert!(!m.slot_loading);
    assert!(m.validators_loading);
    assert_eq!(m.refresh_status, "Fetching validators...");
}

#[test]
fn test_tab_ids_round_trip() {
    let tabs = [
        AppTab::Validators,
        AppTab::GossipNodes,
        AppTab::FindVoters,
        AppTab::LeaderSchedule,
        AppTab::Logs,
        AppTab::Update,
    ];
    for t in tabs {
        assert_eq!(AppTab::from_id(t.id()), t);
    }
    assert_eq!(AppTab::from_id("something else"), AppTab::Validators);
    assert_eq!(AppTab::Validators.name(), "\u{1f4ca} Validators");
}
