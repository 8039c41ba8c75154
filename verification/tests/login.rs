//! Authentication and the life of a session.

use luanti_proto_bot::game::player::WireFields;
use luanti_proto_bot::network::auth::{
    auth_mechanism_supported, should_send_client_ready, start_authentication,
};
use luanti_proto_bot::network::connection::MtpConnection;
use luanti_proto_bot::network::events::MtpEvent;
use luanti_proto_bot::network::srp::{generate_srp_verifier_and_salt, srp_verifier, SrpClient};
use luanti_proto_bot::session::{Mode, Outcome, Session};
use luanti_proto_bot::types::{IVec3, Vec3};
use num_bigint::BigUint;
use sha2::{Digest, Sha256};

const GROUP: [&str; 10] = [
    "AC6BDB41324A9A9BF166DE5E1389582FAF72B6651987EE07FC319294",
    "3DB56050A37329CBB4A099ED8193E0757767A13DD52312AB4B03310D",
    "CD7F48A9DA04FD50E8083969EDB767B0CF6095179A163AB3661A05FB",
    "D5FAAAE82918A9962F0B93B855F97993EC975EEAA80D740ADBF4FF74",
    "7359D041D5C33EA71D281E446B14773BCA97B43A23FB801676BD207A",
    "436C6481F1D2B9078717461A5B9D32E688F87748544523B524B0D57D",
    "5EA77A2775D2ECFA032CFBDBF52FB3786160279004E57AE6AF874E73",
    "03CE53299CCC041C7BC308D82A5698F3A8D0C38271AE35F8E9DBFBB6",
    "94B5C803D89F7AE435DE236D525F54759B65E372FCD68EF20FA7111F",
    "9E4AFF73",
];

fn modulus() -> BigUint {
    BigUint::parse_bytes(GROUP.concat().as_bytes(), 16).unwrap()
}

fn hash(parts: &[&[u8]]) -> Vec<u8> {
    let mut hasher = Sha256::new();
    for part in parts {
        hasher.update(part);
    }
    hasher.finalize().to_vec()
}

fn padded(n: &BigUint) -> Vec<u8> {
    let bytes = n.to_bytes_be();
    let mut out = vec![0; 256 - bytes.len()];
    out.extend_from_slice(&bytes);
    out
}

/// What a server that knows the verifier expects as the proof.
fn expected_proof(
    player: &str,
    salt: &[u8],
    verifier: &[u8],
    a_pub: &[u8],
    secret: u32,
) -> (Vec<u8>, Vec<u8>) {
    let n = modulus();
    let g = BigUint::from(2_u32);
    let v = BigUint::from_bytes_be(verifier);
    let a = BigUint::from_bytes_be(a_pub);
    let b = BigUint::from(secret);
    let k = BigUint::from_bytes_be(&hash(&[&padded(&n), &padded(&g)]));
    let b_pub = (&k * &v + g.modpow(&b, &n)) % &n;
    let u = BigUint::from_bytes_be(&hash(&[&padded(&a), &padded(&b_pub)]));
    let shared = (&a * v.modpow(&u, &n)).modpow(&b, &n);
    let key = hash(&[&shared.to_bytes_be()]);
    let group: Vec<u8> = hash(&[&n.to_bytes_be()])
        .iter()
        .zip(hash(&[&g.to_bytes_be()]))
        .map(|(x, y)| x ^ y)
        .collect();
    let name = hash(&[player.as_bytes()]);
    let proof = hash(&[&group, &name, salt, &padded(&a), &padded(&b_pub), &key]);
    (b_pub.to_bytes_be(), proof)
}

#[test]
fn client_and_server_agree_on_the_secret() {
    let salt = [7_u8; 16];
    let verifier = srp_verifier("Alice", "secret", &salt);
    let client = SrpClient::with_secret("Alice", "secret", vec![0x12, 0x34, 0x56]);
    let (b_pub, proof) = expected_proof("Alice", &salt, &verifier, client.public_value(), 0xabcdef);
    assert_eq!(client.process_challenge(&salt, &b_pub), proof);
    let other = SrpClient::with_secret("Alice", "wrong", vec![0x12, 0x34, 0x56]);
    assert_ne!(other.process_challenge(&salt, &b_pub), proof);
}

#[test]
fn the_public_value_is_a_power_of_two() {
    let client = SrpClient::with_secret("Alice", "secret", vec![0, 10]);
    assert_eq!(client.public_value(), [4, 0]);
}

#[test]
fn the_verifier_does_not_depend_on_the_case_of_the_name() {
    let salt = [1_u8, 2, 3];
    assert_eq!(srp_verifier("ALICE", "x", &salt), srp_verifier("alice", "x", &salt));
    assert_ne!(srp_verifier("alice", "x", &salt), srp_verifier("alice", "X", &salt));
    let inner = hash(&[b"alice:x"]);
    let x = BigUint::from_bytes_be(&hash(&[&salt, &inner]));
    let v = BigUint::from(2_u32).modpow(&x, &modulus());
    assert_eq!(srp_verifier("alice", "x", &salt), v.to_bytes_be());
}

#[test]
fn a_fresh_salt_is_drawn_each_time() {
    let (first, verifier) = generate_srp_verifier_and_salt("alice", "x");
    let (second, _) = generate_srp_verifier_and_salt("alice", "x");
    assert_eq!(first.len(), 16);
    assert_ne!(first, second);
    assert_eq!(verifier, srp_verifier("alice", "x", &first));
}

#[test]
fn registration_is_preferred_to_login() {
    assert!(auth_mechanism_supported(2));
    assert!(auth_mechanism_supported(4));
    assert!(!auth_mechanism_supported(1));
    let mut conn = MtpConnection::new();
    let mut srp = None;
    assert_eq!(start_authentication(&mut conn, "a", "b", 1, &mut srp), Err(1));
    assert!(conn.take_outbox().is_empty());
    assert_eq!(start_authentication(&mut conn, "a", "b", 6, &mut srp), Ok(()));
    assert!(srp.is_none());
    assert_eq!(conn.take_outbox()[0][11..13], [0, 0x50]);
    assert_eq!(start_authentication(&mut conn, "a", "b", 2, &mut srp), Ok(()));
    assert!(srp.is_some());
    assert_eq!(conn.take_outbox()[0][11..13], [0, 0x51]);
}

fn fields() -> WireFields {
    let zero = IVec3 { x: 0, y: 0, z: 0 };
    WireFields {
        pos: zero,
        speed: zero,
        pitch: 0,
        yaw: 0,
        fov: 72,
        wanted_range: 10,
        summary: String::from("state"),
    }
}

fn accept() -> MtpEvent {
    MtpEvent::AuthAccept { recommended_send_interval: 0 }
}

/// The command in a reliable packet.
fn command(packet: &[u8]) -> [u8; 2] {
    [packet[11], packet[12]]
}

#[test]
fn a_session_that_stays_reports_ready_once() {
    let mut s = Session::new(Mode::Stay, "alice", "x", 0);
    assert_eq!(s.conn.take_outbox().len(), 1);
    assert_eq!(s.take_event(&MtpEvent::SetPeerId(3), 0, 0), Outcome::Continue);
    assert_eq!(command(&s.conn.take_outbox()[0]), [0, 0x02]);
    assert_eq!(s.take_event(&accept(), 0, 0), Outcome::Continue);
    assert!(s.ready);
    assert_eq!(command(&s.conn.take_outbox()[0]), [0, 0x11]);
    s.report_ready();
    assert!(s.conn.take_outbox().is_empty());
    s.take_event(&MtpEvent::ItemDef, 0, 0);
    s.take_event(&MtpEvent::NodeDef { data: vec![] }, 0, 0);
    assert!(should_send_client_ready(s.got_itemdef, s.got_nodedef));
    s.report_ready();
    assert_eq!(command(&s.conn.take_outbox()[0]), [0, 0x43]);
    s.report_ready();
    assert!(s.conn.take_outbox().is_empty());
}

#[test]
fn positions_wait_for_a_place_to_stand() {
    let mut s = Session::new(Mode::Stay, "alice", "x", 0);
    s.take_event(&accept(), 0, 0);
    assert!(!s.is_position_due(1_000));
    let pos = Vec3 { x: 5.0_f32.to_bits(), y: 0, z: 0 };
    s.take_event(&MtpEvent::MovePlayer { pos, pitch_degrees: 0, yaw_degrees: 0 }, 0, 0);
    assert_eq!(s.state.pos, pos);
    assert!(!s.is_position_due(199));
    assert!(s.is_position_due(200));
    s.conn.take_outbox();
    s.send_position(&fields(), 200).unwrap();
    assert!(!s.is_position_due(399));
    assert_eq!(s.conn.take_outbox().len(), 1);
    s.state.yaw = f32::INFINITY.to_bits();
    assert!(s.send_position(&fields(), 400).is_err());
}

#[test]
fn a_handshake_ends_with_the_hello() {
    let hello = MtpEvent::ToClientHello { auth_mechs: 2, proto_ver: 46, ser_ver: 29 };
    let mut s = Session::new(Mode::Handshake, "alice", "x", 0);
    assert_eq!(s.take_event(&hello, 0, 0), Outcome::Finished);
    let mut s = Session::new(Mode::Stay, "alice", "x", 0);
    assert_eq!(s.take_event(&hello, 0, 0), Outcome::Continue);
    assert_eq!((s.ser_ver, s.proto_ver), (Some(29), Some(46)));
    let odd = MtpEvent::ToClientHello { auth_mechs: 8, proto_ver: 46, ser_ver: 29 };
    assert_eq!(s.take_event(&odd, 0, 0), Outcome::Unsupported(8));
}

#[test]
fn a_login_leaves_once_it_is_accepted() {
    let mut s = Session::new(Mode::Login, "alice", "x", 0);
    assert_eq!(s.take_event(&MtpEvent::AccessDenied { reason: 4 }, 0, 0), Outcome::Denied(4));
    assert_eq!(s.take_event(&accept(), 0, 0), Outcome::Finished);
    assert!(!s.ready);
}

#[test]
fn one_thing_is_said_when_ready() {
    let mut s = Session::new(Mode::Chat, "alice", "x", 0);
    assert!(!s.say_when_ready("hello"));
    s.take_event(&accept(), 0, 0);
    s.conn.take_outbox();
    assert!(s.say_when_ready("hello"));
    let sent = s.conn.take_outbox();
    assert_eq!(sent.len(), 2);
    assert_eq!(command(&sent[0]), [0, 0x32]);
}

#[test]
fn pings_are_sent_every_five_seconds() {
    let mut s = Session::new(Mode::Stay, "alice", "x", 0);
    s.take_event(&accept(), 0, 0);
    s.conn.take_outbox();
    s.send_ping(4_999);
    assert!(s.conn.take_outbox().is_empty());
    s.send_ping(5_000);
    assert_eq!(s.conn.take_outbox().len(), 1);
}

#[test]
fn leaving_is_announced_to_a_known_server_only() {
    let mut s = Session::new(Mode::Stay, "alice", "x", 0);
    s.conn.take_outbox();
    s.leave();
    assert!(s.conn.take_outbox().is_empty());
    s.conn.set_peer_id(9);
    s.leave();
    assert_eq!(s.conn.take_outbox().len(), 1);
}

#[test]
fn a_challenge_is_answered_by_a_started_login() {
    let mut s = Session::new(Mode::Stay, "alice", "x", 0);
    let hello = MtpEvent::ToClientHello { auth_mechs: 2, proto_ver: 46, ser_ver: 29 };
    s.take_event(&hello, 0, 0);
    s.conn.take_outbox();
    let challenge = MtpEvent::SrpBytesSB { salt: vec![1; 16], b: vec![9; 256] };
    assert_eq!(s.take_event(&challenge, 0, 0), Outcome::Continue);
    assert_eq!(command(&s.conn.take_outbox()[0]), [0, 0x52]);
}

#[test]
fn sessions_time_out_by_what_they_are_for() {
    let s = |mode: Mode| Session::new(mode, "alice", "x", 0);
    assert!(!s(Mode::Handshake).timed_out(100, 6_099));
    assert!(s(Mode::Handshake).timed_out(100, 6_100));
    assert_eq!(s(Mode::Handshake).timeout_message(), "handshake timed out");
    assert!(!s(Mode::Chat).timed_out(0, 29_999));
    assert!(s(Mode::Chat).timed_out(0, 30_000));
    assert_eq!(s(Mode::Chat).timeout_message(), "chat timed out before ready");
    let mut login = s(Mode::Login);
    assert!(login.timed_out(0, 30_000));
    assert_eq!(login.timeout_message(), "login timed out before hello");
    let hello = MtpEvent::ToClientHello { auth_mechs: 2, proto_ver: 46, ser_ver: 29 };
    login.take_event(&hello, 0, 0);
    assert_eq!(login.timeout_message(), "login timed out waiting for auth accept");
    let mut stay = s(Mode::Stay);
    assert!(!stay.timed_out(0, 30_000));
    assert!(stay.timed_out(0, 30_001));
    assert_eq!(stay.timeout_message(), "connect timed out before ready");
    stay.take_event(&accept(), 0, 0);
    assert!(!stay.timed_out(0, 99_999));
}
