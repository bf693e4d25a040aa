use aranya_afc::afc::Afc;
use aranya_afc::error::{AfcError, BugKind, HeaderFault};
use aranya_afc::ids::{AfcId, ChannelId, LabelId, TeamId};
use aranya_afc::streams::PeerAddr;
use aranya_afc::wire::{Data, VERSION_V1};

const OVERHEAD: usize = 24;

fn addr() -> PeerAddr {
    PeerAddr { is_v6: false, ip: 0x7f000001, port: 4000, flowinfo: 0, scope_id: 0 }
}

fn chan_id() -> ChannelId {
    ChannelId { node_id: 3, label: LabelId([9u8; 32]) }
}

fn engine_with(id: AfcId) -> Afc {
    let mut afc = Afc::new(OVERHEAD);
    afc.add_channel(id, "peer.example:4000".to_string(), TeamId([1u8; 32]), chan_id(), addr())
        .unwrap();
    afc
}

fn data(id: AfcId, ciphertext: Vec<u8>) -> Data {
    Data { version: VERSION_V1, afc_id: id, ciphertext }
}

fn sealed(msg_type: u16, payload_len: usize) -> Vec<u8> {
    let mut b = vec![0x54, 0x6f];
    b.extend_from_slice(&msg_type.to_le_bytes());
    b.extend(std::iter::repeat(0xabu8).take(payload_len));
    b
}

#[test]
fn new_channel_starts_at_zero() {
    let id = AfcId([5u8; 32]);
    let afc = engine_with(id);
    let c = afc.channel(&id).unwrap();
    assert_eq!(c.next_min_seq, Some(0));
    assert_eq!(c.net_id, "peer.example:4000");
    assert_eq!(c.addr, addr());
    assert_eq!(c.chan_id, chan_id());
    assert!(afc.channel(&AfcId([6u8; 32])).is_none());
}

#[test]
fn duplicate_add_keeps_entry() {
    let id = AfcId([5u8; 32]);
    let mut afc = engine_with(id);
    let d = data(id, Vec::new());
    afc.open_data(&d, b"x".to_vec(), LabelId([9u8; 32]), 4).unwrap();
    let other = PeerAddr { port: 5000, ..addr() };
    let r = afc.add_channel(
        id,
        "elsewhere:1".to_string(),
        TeamId([2u8; 32]),
        ChannelId { node_id: 8, label: LabelId([1u8; 32]) },
        other,
    );
    assert_eq!(r, Ok(()));
    let c = afc.channel(&id).unwrap();
    assert_eq!(c.next_min_seq, Some(5));
    assert_eq!(c.addr, addr());
    assert_eq!(c.net_id, "peer.example:4000");
}

#[test]
fn duplicate_add_leaves_seq_zero() {
    let id = AfcId([5u8; 32]);
    let mut afc = engine_with(id);
    let r = afc.add_channel(id, "peer.example:4000".to_string(), TeamId([1u8; 32]), chan_id(), addr());
    assert_eq!(r, Ok(()));
    assert_eq!(afc.channel(&id).unwrap().next_min_seq, Some(0));
}

#[test]
fn remove_channel_deletes() {
    let id = AfcId([5u8; 32]);
    let mut afc = engine_with(id);
    afc.remove_channel(id);
    assert!(afc.channel(&id).is_none());
    afc.remove_channel(id);
    assert!(afc.channel(&id).is_none());
}

#[test]
fn open_data_accepts_and_advances() {
    let id = AfcId([5u8; 32]);
    let mut afc = engine_with(id);
    let d = data(id, Vec::new());
    let r = afc.open_data(&d, b"hello".to_vec(), LabelId([9u8; 32]), 0);
    assert_eq!(r, Ok((b"hello".to_vec(), id, LabelId([9u8; 32]), 0)));
    assert_eq!(afc.channel(&id).unwrap().next_min_seq, Some(1));
}

#[test]
fn replayed_seq_is_rejected() {
    let id = AfcId([5u8; 32]);
    let mut afc = engine_with(id);
    let d = data(id, Vec::new());
    afc.open_data(&d, b"hello".to_vec(), LabelId([9u8; 32]), 0).unwrap();
    let r = afc.open_data(&d, b"hello".to_vec(), LabelId([9u8; 32]), 0);
    assert_eq!(r, Err(AfcError::MsgReplayed(0)));
    assert_eq!(afc.channel(&id).unwrap().next_min_seq, Some(1));
}

#[test]
fn older_seq_is_rejected_newer_accepted() {
    let id = AfcId([5u8; 32]);
    let mut afc = engine_with(id);
    let d = data(id, Vec::new());
    afc.open_data(&d, Vec::new(), LabelId([9u8; 32]), 10).unwrap();
    assert_eq!(afc.open_data(&d, Vec::new(), LabelId([9u8; 32]), 7), Err(AfcError::MsgReplayed(7)));
    assert_eq!(afc.open_data(&d, Vec::new(), LabelId([9u8; 32]), 10), Err(AfcError::MsgReplayed(10)));
    assert!(afc.open_data(&d, Vec::new(), LabelId([9u8; 32]), 11).is_ok());
}

#[test]
fn largest_seq_exhausts_channel() {
    let id = AfcId([5u8; 32]);
    let mut afc = engine_with(id);
    let d = data(id, sealed(1, OVERHEAD));
    afc.open_data(&d, Vec::new(), LabelId([9u8; 32]), u64::MAX).unwrap();
    assert_eq!(afc.channel(&id).unwrap().next_min_seq, None);
    assert_eq!(afc.channel(&id).unwrap().next_min_seq(), Err(AfcError::EndOfChannel));
    assert_eq!(afc.open_data(&d, Vec::new(), LabelId([9u8; 32]), 3), Err(AfcError::EndOfChannel));
    assert_eq!(afc.open_target(&d).unwrap_err(), AfcError::EndOfChannel);
}

#[test]
fn label_mismatch_is_a_bug() {
    let id = AfcId([5u8; 32]);
    let mut afc = engine_with(id);
    let d = data(id, Vec::new());
    let r = afc.open_data(&d, Vec::new(), LabelId([8u8; 32]), 0);
    assert_eq!(r, Err(AfcError::Bug(BugKind::LabelMismatch)));
    assert_eq!(afc.channel(&id).unwrap().next_min_seq, Some(0));
}

#[test]
fn unknown_channel_and_version() {
    let id = AfcId([5u8; 32]);
    let mut afc = engine_with(id);
    let other = AfcId([6u8; 32]);
    assert_eq!(
        afc.open_data(&data(other, Vec::new()), Vec::new(), LabelId([9u8; 32]), 0),
        Err(AfcError::ChannelNotFound(other))
    );
    let d = Data { version: 1, afc_id: id, ciphertext: Vec::new() };
    assert_eq!(
        afc.open_data(&d, Vec::new(), LabelId([9u8; 32]), 0),
        Err(AfcError::VersionMismatch { expected: VERSION_V1, actual: 1 })
    );
    assert_eq!(afc.check_version(VERSION_V1), Ok(()));
    assert_eq!(afc.check_version(2), Err(AfcError::VersionMismatch { expected: VERSION_V1, actual: 2 }));
}

#[test]
fn open_target_strips_sealed_header() {
    let id = AfcId([5u8; 32]);
    let afc = engine_with(id);
    let d = data(id, sealed(1, OVERHEAD + 5));
    let t = afc.open_target(&d).unwrap();
    assert_eq!(t.chan_id, chan_id());
    assert_eq!(t.ciphertext, vec![0xabu8; OVERHEAD + 5]);
    assert_eq!(t.plaintext_len, 5);
}

#[test]
fn open_target_refusals() {
    let id = AfcId([5u8; 32]);
    let afc = engine_with(id);
    assert_eq!(
        afc.open_target(&data(id, sealed(1, OVERHEAD - 1))).unwrap_err(),
        AfcError::PayloadTooSmall
    );
    assert_eq!(
        afc.open_target(&data(id, sealed(2, OVERHEAD))).unwrap_err(),
        AfcError::Bug(BugKind::ControlPayload)
    );
    assert_eq!(
        afc.open_target(&data(id, sealed(3, OVERHEAD))).unwrap_err(),
        AfcError::InvalidMsg(HeaderFault::InvalidMsgType)
    );
    assert_eq!(
        afc.open_target(&data(id, vec![0x54, 0x6f, 1])).unwrap_err(),
        AfcError::InvalidMsg(HeaderFault::InvalidSize)
    );
    assert_eq!(
        afc.open_target(&data(id, vec![0x00, 0x01, 1, 0, 0, 0])).unwrap_err(),
        AfcError::InvalidMsg(HeaderFault::UnknownVersion)
    );
    let other = AfcId([6u8; 32]);
    assert_eq!(
        afc.open_target(&data(other, sealed(1, OVERHEAD))).unwrap_err(),
        AfcError::ChannelNotFound(other)
    );
}

#[test]
fn node_ids_increase_from_zero() {
    let mut afc = Afc::new(OVERHEAD);
    assert_eq!(afc.get_next_node_id(), Ok(0));
    assert_eq!(afc.get_next_node_id(), Ok(1));
    assert_eq!(afc.get_next_node_id(), Ok(2));
}

#[test]
fn route_and_datagram_len() {
    let id = AfcId([5u8; 32]);
    let afc = engine_with(id);
    let r = afc.route(&id).unwrap();
    assert_eq!(r.net_id, "peer.example:4000");
    assert_eq!(r.chan_id, chan_id());
    assert_eq!(r.addr, addr());
    let other = AfcId([6u8; 32]);
    assert_eq!(afc.route(&other).unwrap_err(), AfcError::ChannelNotFound(other));
    assert_eq!(afc.datagram_len(5), Ok(4 + 5 + OVERHEAD));
    assert_eq!(afc.datagram_len(usize::MAX), Err(AfcError::PlaintextTooLarge));
}
