use vstd::prelude::*;
use crate::arp::{ArpConfig, MacAddress};
use crate::tcp::TcpConfig;

verus! {

pub const RECEIVE_WINDOW_SIZE: usize = 1024;

pub const ALICE_MAC: u64 = 0x12_23_45_67_89_ab;

/// 192.168.1.1
pub const ALICE_IPV4: u32 = 0xc0a8_0101;

pub const BOB_MAC: u64 = 0xab_89_67_45_23_12;

/// 192.168.1.2
pub const BOB_IPV4: u32 = 0xc0a8_0102;

pub const CARRIE_MAC: u64 = 0xef_cd_ab_89_67_45;

/// 192.168.1.3
pub const CARRIE_IPV4: u32 = 0xc0a8_0103;

pub const JUAN_MAC: u64 = 0x18_32_ef_de_ad_ff;

/// 192.168.1.69
pub const JUAN_IPV4: u32 = 0xc0a8_0145;

/// The settings of a stack instance on a test network.
pub struct HostConfig {
    pub name: &'static str,
    pub link_addr: MacAddress,
    pub ipv4_addr: u32,
    pub arp: ArpConfig,
    pub tcp: TcpConfig,
    /// The time at which the host starts, in milliseconds.
    pub now: u64,
}

/// The settings that every test host shares: entries live 600 s, requests
/// wait 1 s, two attempts, ARP enabled, default TCP settings.
pub open spec fn test_host(
    link_addr: u64,
    ipv4_addr: u32,
    table: Seq<(u32, MacAddress)>,
    now: u64,
    h: &HostConfig,
) -> bool {
    &&& h.link_addr.value == link_addr
    &&& h.ipv4_addr == ipv4_addr
    &&& h.arp.cache_ttl == 600_000
    &&& h.arp.request_timeout == 1000
    &&& h.arp.retry_count == 2
    &&& h.arp.initial_table@ == table
    &&& !h.arp.disable_arp
    &&& h.tcp == TcpConfig::default_spec()
    &&& h.tcp.wf()
    &&& h.now == now
}

fn host(
    name: &'static str,
    link_addr: u64,
    ipv4_addr: u32,
    table: Vec<(u32, MacAddress)>,
    now: u64,
) -> (r: HostConfig)
    requires
        link_addr < 0x1_0000_0000_0000,
    ensures
        test_host(link_addr, ipv4_addr, table@, now, &r),
        r.name == name,
{
    let arp = ArpConfig::new(Some(600_000), Some(1000), Some(2), Some(table), Some(false));
    HostConfig {
        name,
        link_addr: MacAddress::new(link_addr),
        ipv4_addr,
        arp,
        tcp: TcpConfig::default_config(),
        now,
    }
}

pub fn new_alice(now: u64) -> (r: HostConfig)
    ensures
        test_host(ALICE_MAC, ALICE_IPV4, Seq::empty(), now, &r),
        r.name@ == "alice"@,
{
    host("alice", ALICE_MAC, ALICE_IPV4, Vec::new(), now)
}

pub fn new_bob(now: u64) -> (r: HostConfig)
    ensures
        test_host(BOB_MAC, BOB_IPV4, Seq::empty(), now, &r),
        r.name@ == "bob"@,
{
    host("bob", BOB_MAC, BOB_IPV4, Vec::new(), now)
}

/// Alice, with her own mapping and Bob's seeded.
pub fn new_alice2(now: u64) -> (r: HostConfig)
    ensures
        test_host(
            ALICE_MAC,
            ALICE_IPV4,
            seq![
                (ALICE_IPV4, MacAddress { value: ALICE_MAC }),
                (BOB_IPV4, MacAddress { value: BOB_MAC }),
            ],
            now,
            &r,
        ),
        r.name@ == "alice"@,
{
    let table = vec![
        (ALICE_IPV4, MacAddress::new(ALICE_MAC)),
        (BOB_IPV4, MacAddress::new(BOB_MAC)),
    ];
    assert(table@ =~= seq![
        (ALICE_IPV4, MacAddress { value: ALICE_MAC }),
        (BOB_IPV4, MacAddress { value: BOB_MAC }),
    ]);
    host("alice", ALICE_MAC, ALICE_IPV4, table, now)
}

/// Bob, with his own mapping and Alice's seeded.
pub fn new_bob2(now: u64) -> (r: HostConfig)
    ensures
        test_host(
            BOB_MAC,
            BOB_IPV4,
            seq![
                (BOB_IPV4, MacAddress { value: BOB_MAC }),
                (ALICE_IPV4, MacAddress { value: ALICE_MAC }),
            ],
            now,
            &r,
        ),
        r.name@ == "bob"@,
{
    let table = vec![
        (BOB_IPV4, MacAddress::new(BOB_MAC)),
        (ALICE_IPV4, MacAddress::new(ALICE_MAC)),
    ];
    assert(table@ =~= seq![
        (BOB_IPV4, MacAddress { value: BOB_MAC }),
        (ALICE_IPV4, MacAddress { value: ALICE_MAC }),
    ]);
    host("bob", BOB_MAC, BOB_IPV4, table, now)
}

pub fn new_carrie(now: u64) -> (r: HostConfig)
    ensures
        test_host(CARRIE_MAC, CARRIE_IPV4, Seq::empty(), now, &r),
        r.name@ == "carrie"@,
{
    host("carrie", CARRIE_MAC, CARRIE_IPV4, Vec::new(), now)
}

/// Juan, who knows Alice's mapping only.
pub fn new_juan(now: u64) -> (r: HostConfig)
    ensures
        test_host(JUAN_MAC, JUAN_IPV4, seq![(ALICE_IPV4, MacAddress { value: ALICE_MAC })], now, &r),
        r.name@ == "juan"@,
{
    let table = vec![(ALICE_IPV4, MacAddress::new(ALICE_MAC))];
    assert(table@ =~= seq![(ALICE_IPV4, MacAddress { value: ALICE_MAC })]);
    host("juan", JUAN_MAC, JUAN_IPV4, table, now)
}

} // verus!
