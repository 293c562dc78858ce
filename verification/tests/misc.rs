use kaze::consul::{ident_meta, is_unspecified, needs_local_ip, service_ip, IpAddress};
use kaze::corral::{
    close_outcome, conn_start, conn_step, stop_is_error, CloseOutcome, ConnAction, ConnEvent, ConnPhase, StopReason,
    default_idle_timeout, default_pending_timeout, rpc_action, Direction, Dispatcher, RpcAction, RpcTable,
};
use kaze::edge::{
    bufsize_for_page, default_bufsize, default_name, default_unlink, existing_action, get_channel_name,
    get_kaze_pair_names, pair_owners, ExistingAction, Options,
};
use kaze::plugin::{NonPlugin, State};
use kaze::shm::{layout, object_size, OpenError, ShmHdr, Side};

#[test]
fn rpc_actions() {
    assert!(rpc_action(false, None, 10) == RpcAction::Ignore);
    assert!(rpc_action(false, Some(3), 0) == RpcAction::Ignore);
    assert!(rpc_action(false, Some(3), 10) == RpcAction::Track { seq: 3, timeout_ms: 10 });
    assert!(rpc_action(true, Some(3), 10) == RpcAction::Finish { seq: 3 });
    assert!(Direction::ToHost != Direction::ToNode);
    let _d = Dispatcher::new();
    assert_eq!(default_pending_timeout(), 500);
    assert_eq!(default_idle_timeout(), 60_000);
}

#[test]
fn edge_options() {
    assert_eq!(default_name(), "kaze");
    assert!(default_unlink());
    let o = Options::new(4096).with_unlink(false).with_ident(0x0a00_0001).with_name("q".to_string()).with_bufsize(1);
    assert_eq!(o.name, "q");
    assert_eq!(o.ident, 0x0a00_0001);
    assert_eq!(o.bufsize, 1);
    assert!(!o.unlink);
}

#[test]
fn plugin_values() {
    let p = NonPlugin::new("x");
    assert_eq!(*p.inner(), "x");
    assert!(State::Exiting != State::Exited);
}

fn hdr() -> ShmHdr {
    ShmHdr { size: 0, sidecar_ident: 0, sidecar_pid: 0, host_pid: 0, netside_size: 0, hostside_size: 0 }
}

#[test]
fn shm_layout_and_attach() {
    assert_eq!(object_size(0, 4096), 4096);
    assert_eq!(object_size(8192, 4096), 8192);
    let (net, host, total) = layout(64, 32);
    assert_eq!((net, host, total), (84, 52, 24 + 84 + 52));
    let mut h = hdr();
    h.init(7, net, host, 100);
    assert_eq!(h.size as usize, total);
    assert!(h.side(100) == Some(Side::Sidecar));
    assert!(h.side(200) == None);
    assert!(h.attach_host(10, 200) == Err(OpenError::TooSmall));
    assert!(h.attach_host(total + 1, 200) == Err(OpenError::SizeMismatch));
    assert!(h.attach_host(total, 200) == Ok((net, host)));
    assert!(h.side(200) == Some(Side::Host));
    assert!(h.attach_host(total, 300) == Err(OpenError::InUse));
}

#[test]
fn edge_channel_names() {
    assert_eq!(get_channel_name("kaze", 0x0a00_0001), "kaze_10.0.0.1");
    assert_eq!(get_channel_name("q", 0), "q_0.0.0.0");
    assert_eq!(get_channel_name("", 0xffff_ffff), "_255.255.255.255");
    assert_eq!(get_channel_name("x", 0xc0a8_6409), "x_192.168.100.9");
    let (sq, cq) = get_kaze_pair_names("kaze", 0x7f00_0001);
    assert_eq!(sq, "kaze_sq_127.0.0.1");
    assert_eq!(cq, "kaze_cq_127.0.0.1");
}

#[test]
fn edge_existing_object() {
    assert_eq!(existing_action(false, false), ExistingAction::Create);
    assert_eq!(existing_action(false, true), ExistingAction::Create);
    assert_eq!(existing_action(true, true), ExistingAction::UnlinkFirst);
    assert_eq!(existing_action(true, false), ExistingAction::Refuse);
    assert_eq!(pair_owners(42), ((Some(42), None), (None, Some(42))));
}

#[test]
fn edge_default_bufsize() {
    assert_eq!(bufsize_for_page(4096), Some(32768));
    assert_eq!(bufsize_for_page(usize::MAX / 4), None);
    let n = default_bufsize().unwrap();
    assert!(n > 0 && n % 8 == 0);
}

#[test]
fn rpc_table_tracks_and_finishes() {
    let mut t: RpcTable<(Direction, u64)> = RpcTable::new();
    assert_eq!(t.len(), 0);
    assert!(t.track(7, (Direction::ToNode, 100)).is_none());
    assert!(t.track(8, (Direction::ToHost, 50)).is_none());
    assert_eq!(t.len(), 2);
    assert!(t.get(7) == Some(&(Direction::ToNode, 100)));
    assert!(t.track(7, (Direction::ToHost, 10)) == Some((Direction::ToNode, 100)));
    assert!(t.finish(7) == Some((Direction::ToHost, 10)));
    assert!(t.finish(7).is_none());
    assert!(t.get(7).is_none());
    assert_eq!(t.len(), 1);
}

#[test]
fn consul_registration_values() {
    assert!(is_unspecified(IpAddress::V4(0)));
    assert!(!is_unspecified(IpAddress::V6(1)));
    assert!(needs_local_ip(IpAddress::V6(0)));
    assert_eq!(service_ip(IpAddress::V4(0x0a000001), None), Some(IpAddress::V4(0x0a000001)));
    assert_eq!(service_ip(IpAddress::V4(0), Some(IpAddress::V4(7))), Some(IpAddress::V4(7)));
    assert_eq!(service_ip(IpAddress::V4(0), None), None);
    assert_eq!(ident_meta(0x0a00_0102), ("ident".to_string(), "10.0.1.2".to_string()));
}

#[test]
fn connection_reader_decisions() {
    assert_eq!(conn_start(None, 60), (ConnPhase::Reading, ConnAction::Wait { timeout_ms: 60 }));
    assert_eq!(conn_start(Some(5), 60), (ConnPhase::AwaitFirst, ConnAction::Wait { timeout_ms: 5 }));
    assert_eq!(conn_step(ConnPhase::AwaitFirst, ConnEvent::TimedOut, 60), (ConnPhase::Done, ConnAction::Stop(StopReason::PendingTimeout)));
    assert_eq!(conn_step(ConnPhase::Reading, ConnEvent::TimedOut, 60), (ConnPhase::Done, ConnAction::Stop(StopReason::IdleTimeout)));
    assert_eq!(conn_step(ConnPhase::AwaitFirst, ConnEvent::Packet, 60), (ConnPhase::ForwardingFirst, ConnAction::Forward));
    assert_eq!(conn_step(ConnPhase::ForwardingFirst, ConnEvent::Forwarded, 60), (ConnPhase::Reading, ConnAction::Wait { timeout_ms: 60 }));
    assert_eq!(conn_step(ConnPhase::Forwarding, ConnEvent::ForwardFailed, 60), (ConnPhase::Done, ConnAction::Stop(StopReason::ForwardError)));
    assert_eq!(conn_step(ConnPhase::Reading, ConnEvent::Exit, 60), (ConnPhase::Done, ConnAction::Stop(StopReason::Exited)));
    assert!(stop_is_error(StopReason::ReadError));
    assert!(!stop_is_error(StopReason::Closed));
    assert_eq!(close_outcome(false, true), CloseOutcome::NotOpen);
    assert_eq!(close_outcome(true, true), CloseOutcome::Shutdown);
    assert_eq!(close_outcome(true, false), CloseOutcome::ReuniteFailed);
}
