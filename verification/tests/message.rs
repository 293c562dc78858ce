
use kaze::message::{Destination, Message, Node, Source};

/// A socket address: IPv4 address bits and port.
type SocketAddr = (u32, u16);

fn local_addr() -> SocketAddr {
    (0x7f00_0001, 8080)
}

#[test]
fn test_message_creation() {
    let addr = local_addr();
    let packet = ();
    let source = Source::from_remote(1, addr);

    let message = Message::new(packet, source);
    assert_eq!(message.source().ident(), 1);
    assert!(matches!(message.destination(), Destination::Drop));

    let message = Message::new_with_destination((), source, Destination::to_local());
    assert!(message.destination().is_local());
}

#[test]
fn test_message_conversion() {
    let addr = local_addr();
    // a default header names the sender 0
    let src_ident: u32 = 0;
    let message = Message::from_packet((), src_ident, Some(addr));
    assert_eq!(message.source().ident(), src_ident);

    let (pwa, dst) = message.split();
    assert_eq!(pwa.1, Some(addr));
    assert!(dst.is_drop());
}

#[test]
fn test_destination_methods() {
    let addr = local_addr();
    let node = Node::new(1, addr);

    let dst = Destination::to_remote(1, addr);
    assert!(dst.is_remote());
    assert!(!dst.is_local());
    assert!(!dst.is_drop());

    let dst = Destination::to_remote_list(vec![node]);
    assert!(dst.is_remote());
}

#[test]
fn message_from_local_host_has_no_address() {
    let message: Message<u8, SocketAddr> = Message::from_packet(7, 42, None);
    assert_eq!(message.source().ident(), 0);
    assert!(matches!(message.source(), Source::Host));
    let ((packet, addr), dst) = message.split();
    assert_eq!(packet, 7);
    assert_eq!(addr, None);
    assert!(dst.is_drop());
}

#[test]
fn message_destination_can_be_replaced() {
    let mut message: Message<u8, SocketAddr> = Message::new(1, Source::from_local());
    message.set_destination(Destination::to_remote(3, local_addr()));
    assert!(message.destination().is_remote());
    *message.packet_mut() = 9;
    assert_eq!(*message.packet(), 9);
    assert_eq!(message.into_packet(), 9);
}
