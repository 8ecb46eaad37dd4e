use prototype_net::daemon::interface::get_wan_ipv6;
use prototype_net::daemon::interface::ifindex;
use prototype_net::daemon::interface::ifindex_path;
use prototype_net::daemon::interface::sysfs_path;
use prototype_net::daemon::interface::wait_for_interface;
use prototype_net::daemon::interface::InterfaceAddr;
use prototype_net::daemon::interface::WaitAction;
use prototype_net::daemon::interface::WaitEvent;
use prototype_net::daemon::listener::ListenerAction;
use prototype_net::daemon::listener::ListenerEvent;
use prototype_net::daemon::listener::Supervisor;
use prototype_net::daemon::loader::load_and_attach;
use prototype_net::daemon::loader::LoadStep;
use prototype_net::daemon::loader::Program;
use prototype_net::daemon::loader::Side;
use prototype_net::daemon::sync::bulk_load_from_db;
use prototype_net::daemon::sync::on_notification;
use prototype_net::daemon::sync::on_resolved;
use prototype_net::daemon::sync::parse_notification;
use prototype_net::daemon::sync::resolve_all;
use prototype_net::daemon::sync::BulkRow;
use prototype_net::daemon::sync::NotificationAction;
use prototype_net::daemon::sync::NotifiedRow;
use prototype_net::daemon::sync::PassError;
use prototype_net::daemon::sync::PassStep;
use prototype_net::daemon::sync::ResolveAction;
use prototype_net::daemon::sync::ResolveEvent;
use prototype_net::daemon::sync::RESOLVE_INTERVAL_SECS;
use prototype_net::dns::handler::LookupOutcome;
use prototype_net::types::ProxySrcKey;

#[test]
fn backoff_doubles_up_to_the_limit() {
    let mut s = Supervisor::new();
    assert_eq!(s.on_event(ListenerEvent::PoolCreated), ListenerAction::Run);
    for wait in [2, 4, 8, 16, 30, 30] {
        assert_eq!(
            s.on_event(ListenerEvent::RunEnded { elapsed_secs: 4 }),
            ListenerAction::Reconnect { after_secs: wait }
        );
    }
    assert_eq!(
        s.on_event(ListenerEvent::RunEnded { elapsed_secs: 5 }),
        ListenerAction::Reconnect { after_secs: 1 }
    );
    assert_eq!(
        s.on_event(ListenerEvent::RunEnded { elapsed_secs: 0 }),
        ListenerAction::Reconnect { after_secs: 2 }
    );
}

#[test]
fn only_the_first_pool_failure_is_fatal() {
    let mut s = Supervisor::new();
    assert_eq!(s.on_event(ListenerEvent::PoolFailed), ListenerAction::Fatal);
    let mut s = Supervisor::new();
    s.on_event(ListenerEvent::PoolCreated);
    assert_eq!(
        s.on_event(ListenerEvent::PoolFailed),
        ListenerAction::Reconnect { after_secs: 2 }
    );
    assert_eq!(
        s.on_event(ListenerEvent::PoolFailed),
        ListenerAction::Reconnect { after_secs: 4 }
    );
}

#[test]
fn waiting_for_an_interface() {
    assert_eq!(wait_for_interface(WaitEvent::Looked { exists: true }), WaitAction::Ready);
    assert_eq!(
        wait_for_interface(WaitEvent::Looked { exists: false }),
        WaitAction::Wait { secs: 5 }
    );
    assert_eq!(wait_for_interface(WaitEvent::IntervalElapsed), WaitAction::Look);
    assert_eq!(wait_for_interface(WaitEvent::Interrupted), WaitAction::StopInterrupted);
    assert_eq!(wait_for_interface(WaitEvent::Terminated), WaitAction::StopTerminated);
}

#[test]
fn interface_paths_and_index() {
    assert_eq!(sysfs_path("xfrm0"), "/sys/class/net/xfrm0");
    assert_eq!(ifindex_path("xfrm0"), "/sys/class/net/xfrm0/ifindex");
    assert_eq!(ifindex("12\n"), Some(12));
    assert_eq!(ifindex("x"), None);
    assert_eq!(ifindex("4294967296"), None);
}

#[test]
fn wan_address_is_the_first_global_one() {
    let addr = |name: &str, ipv6: Option<[u8; 16]>| InterfaceAddr {
        interface: name.to_string(),
        ipv6,
    };
    let mut link = [0u8; 16];
    link[0] = 0xfe;
    link[1] = 0xbf;
    let mut site = [0u8; 16];
    site[0] = 0xfe;
    site[1] = 0xc0;
    let addrs = vec![
        addr("lo", Some([1; 16])),
        addr("wan0", None),
        addr("wan0", Some(link)),
        addr("wan0", Some(site)),
        addr("wan0", Some([2; 16])),
    ];
    assert_eq!(get_wan_ipv6(&addrs, &"wan0".to_string()), Some(site));
    assert_eq!(get_wan_ipv6(&addrs, &"lo".to_string()), Some([1; 16]));
    assert_eq!(get_wan_ipv6(&addrs, &"wan".to_string()), None);
}

#[test]
fn load_steps_in_order() {
    let a = ProxySrcKey { prince_key: [1; 16], siphash_key: [2; 16] };
    let b = ProxySrcKey { prince_key: [3; 16], siphash_key: [4; 16] };
    let steps = load_and_attach(a, None, false);
    assert_eq!(steps.len(), 8);
    assert!(matches!(steps[0], LoadStep::CreatePinDir));
    assert!(matches!(steps[1], LoadStep::AddQueue(Side::Tunnel)));
    assert!(matches!(
        steps[2],
        LoadStep::Attach { program: Program::TcIngress, side: Side::Tunnel }
    ));
    assert!(matches!(steps[3], LoadStep::AddQueue(Side::Wan)));
    assert!(matches!(
        steps[4],
        LoadStep::Attach { program: Program::TcIngressWan, side: Side::Wan }
    ));
    assert!(matches!(steps[5], LoadStep::Attach { program: Program::XdpWan, side: Side::Wan }));
    assert!(matches!(steps[6], LoadStep::WriteTunnelIndex));
    assert!(matches!(steps[7], LoadStep::WriteKey { slot: 0, key } if key.prince_key == [1; 16]));
    let steps = load_and_attach(a, Some(b), true);
    assert_eq!(steps.len(), 10);
    assert!(matches!(steps[7], LoadStep::WriteKey { slot: 0, key } if key.prince_key == [1; 16]));
    assert!(matches!(steps[8], LoadStep::WriteKey { slot: 1, key } if key.prince_key == [3; 16]));
    assert!(matches!(steps[9], LoadStep::WriteWanAddr));
}

#[test]
fn notifications() {
    assert_eq!(parse_notification("17"), Some(17));
    assert_eq!(parse_notification("-3"), Some(-3));
    assert_eq!(parse_notification("17 "), None);
    assert_eq!(parse_notification(""), None);
    assert!(matches!(
        on_notification(5, NotifiedRow::Missing),
        NotificationAction::WarnMissing
    ));
    assert!(matches!(
        on_notification(5, NotifiedRow::InvalidOrigin),
        NotificationAction::EndRun
    ));
    match on_notification(-1, NotifiedRow::Origin([7; 16])) {
        NotificationAction::Insert { domain_id, entry } => {
            assert_eq!(domain_id, u32::MAX);
            assert_eq!(entry.origin_ipv6, [7; 16]);
        }
        _ => panic!("not inserted"),
    }
}

#[test]
fn bulk_load_stops_at_the_first_bad_row() {
    let row = |domain_id: i32, origin: Option<[u8; 16]>| BulkRow { domain_id, origin };
    let plan = bulk_load_from_db(&vec![row(1, Some([1; 16])), row(2, Some([2; 16]))]);
    assert_eq!(plan.count, Some(2));
    assert_eq!(plan.inserts.len(), 2);
    assert_eq!(plan.inserts[1].0, 2);
    assert_eq!(plan.inserts[1].1.origin_ipv6, [2; 16]);
    let plan = bulk_load_from_db(&vec![row(1, Some([1; 16])), row(2, None), row(3, Some([3; 16]))]);
    assert_eq!(plan.count, None);
    assert_eq!(plan.inserts.len(), 1);
    assert_eq!(bulk_load_from_db(&vec![]).count, Some(0));
}

#[test]
fn re_resolution() {
    let stored = "2a00::1".to_string();
    let same = "2a00::1".to_string();
    let new = "2a00::2".to_string();
    let found = LookupOutcome::Records(vec![[8; 16], [9; 16]]);
    assert!(matches!(on_resolved(4, &stored, &found, &same), ResolveAction::Keep));
    match on_resolved(4, &stored, &found, &new) {
        ResolveAction::Update { domain_id, entry } => {
            assert_eq!(domain_id, 4);
            assert_eq!(entry.origin_ipv6, [8; 16]);
        }
        _ => panic!("not updated"),
    }
    let none = LookupOutcome::Records(vec![]);
    assert!(matches!(on_resolved(4, &stored, &none, &new), ResolveAction::Keep));
    assert!(matches!(
        on_resolved(4, &stored, &LookupOutcome::NoRecordsFound, &new),
        ResolveAction::Warn
    ));
    assert!(matches!(
        on_resolved(4, &stored, &LookupOutcome::Failed, &new),
        ResolveAction::Warn
    ));
}

#[test]
fn only_failed_writes_end_a_pass() {
    assert_eq!(resolve_all(ResolveEvent::Kept), PassStep::NextDomain);
    assert_eq!(resolve_all(ResolveEvent::LookupFailed), PassStep::NextDomain);
    assert_eq!(resolve_all(ResolveEvent::DatabaseWritten), PassStep::WriteMap);
    assert_eq!(resolve_all(ResolveEvent::MapWritten), PassStep::NextDomain);
    assert_eq!(
        resolve_all(ResolveEvent::DatabaseFailed),
        PassStep::EndPass(PassError::Database)
    );
    assert_eq!(resolve_all(ResolveEvent::MapFailed), PassStep::EndPass(PassError::DomainMap));
    assert_eq!(RESOLVE_INTERVAL_SECS, 60);
}
