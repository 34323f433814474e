use catnip::arp::{ArpAction, ArpCache, ArpConfig, MacAddress, TimeoutAction};
use catnip::fail::{Fail, FailKind};
use catnip::ipv4::Ipv4Endpoint;
use catnip::operations::{OperationResult, QDesc};
use catnip::test_helpers::{
    new_alice, new_alice2, new_bob, new_bob2, new_carrie, new_juan, ALICE_IPV4, ALICE_MAC,
    BOB_IPV4, BOB_MAC, CARRIE_IPV4,
};

fn enabled() -> ArpCache {
    ArpCache::new(&ArpConfig::new(None, None, None, None, None))
}

#[test]
fn concurrent_queries_coalesce() {
    let mut arp = enabled();
    assert_eq!(arp.query(BOB_IPV4, 0), ArpAction::SendRequest);
    for t in 1..10 {
        assert_eq!(arp.query(BOB_IPV4, t), ArpAction::Wait);
    }
    assert_eq!(arp.pending.len(), 1);
    assert!(arp.learn(BOB_IPV4, MacAddress::new(BOB_MAC), 20));
    assert_eq!(arp.query(BOB_IPV4, 21), ArpAction::Resolved(MacAddress::new(BOB_MAC)));
    assert!(arp.pending.is_empty());
}

#[test]
fn entries_expire() {
    let mut arp = enabled();
    assert!(!arp.learn(BOB_IPV4, MacAddress::new(BOB_MAC), 1000));
    assert_eq!(arp.query(BOB_IPV4, 600_999), ArpAction::Resolved(MacAddress::new(BOB_MAC)));
    assert_eq!(arp.query(BOB_IPV4, 601_000), ArpAction::SendRequest);
}

#[test]
fn request_retries_then_gives_up() {
    let mut arp = enabled();
    assert_eq!(arp.query(CARRIE_IPV4, 0), ArpAction::SendRequest);
    assert_eq!(arp.pending[0].deadline, 1000);
    assert_eq!(arp.on_request_timeout(CARRIE_IPV4, 1000), TimeoutAction::Retransmit);
    assert_eq!(arp.pending[0].attempts, 2);
    assert_eq!(arp.pending[0].deadline, 2000);
    assert_eq!(arp.on_request_timeout(CARRIE_IPV4, 2000), TimeoutAction::GiveUp);
    assert_eq!(arp.on_request_timeout(CARRIE_IPV4, 3000), TimeoutAction::NotPending);
    assert_eq!(arp.query(CARRIE_IPV4, 3000), ArpAction::SendRequest);
}

#[test]
fn disabled_arp_uses_seeds_only() {
    let table = vec![(ALICE_IPV4, MacAddress::new(ALICE_MAC))];
    let mut arp = ArpCache::new(&ArpConfig::new(None, None, None, Some(table), Some(true)));
    assert_eq!(arp.query(ALICE_IPV4, u64::MAX - 1), ArpAction::Resolved(MacAddress::new(ALICE_MAC)));
    assert_eq!(arp.query(BOB_IPV4, 0), ArpAction::Unresolved);
    assert!(arp.pending.is_empty());
}

#[test]
fn arp_config_defaults() {
    let c = ArpConfig::new(None, Some(5), None, None, None);
    assert_eq!(c.cache_ttl, 600_000);
    assert_eq!(c.request_timeout, 5);
    assert_eq!(c.retry_count, 2);
    assert!(c.initial_table.is_empty());
    assert!(!c.disable_arp);
}

#[test]
fn test_hosts() {
    let a = new_alice(7);
    assert_eq!(a.name, "alice");
    assert_eq!(a.ipv4_addr, ALICE_IPV4);
    assert_eq!(a.link_addr, MacAddress::new(ALICE_MAC));
    assert_eq!(a.now, 7);
    assert_eq!(a.arp.cache_ttl, 600_000);
    assert_eq!(a.arp.request_timeout, 1000);
    assert_eq!(new_bob(0).ipv4_addr, BOB_IPV4);
    assert_eq!(new_carrie(0).name, "carrie");
    assert_eq!(new_alice2(0).arp.initial_table.len(), 2);
    assert_eq!(new_bob2(0).arp.initial_table[1], (ALICE_IPV4, MacAddress::new(ALICE_MAC)));
    assert_eq!(new_juan(0).arp.initial_table.len(), 1);
    let arp = ArpCache::new(&new_alice2(0).arp);
    assert_eq!(arp.entries.len(), 2);
}

#[test]
fn operation_result_names() {
    assert_eq!(OperationResult::Connect.name(), "Connect");
    assert_eq!(OperationResult::Accept(QDesc { value: 3 }).name(), "Accept");
    assert_eq!(OperationResult::Push.name(), "Push");
    let ep = Ipv4Endpoint::new(BOB_IPV4, 1);
    assert_eq!(OperationResult::Pop(Some(ep), vec![1]).name(), "Pop");
    assert_eq!(OperationResult::Failed(Fail::new(FailKind::ConnectionReset)).name(), "Failed");
}
