//! Which authentication is used, and when the client is ready.

use super::connection::{sent_reliably, ConnectionView, MtpConnection};
use super::outbound::{first_srp_payload, srp_a_payload, srp_m_payload};
use super::protocol::{AUTH_MECHANISM_FIRST_SRP, AUTH_MECHANISM_SRP};
use super::srp::{
    challenge_answer, combined, generate_srp_verifier_and_salt, generated, hashed_pair,
    lower_case, n_len, padded, private_key, server_public, server_secret, sha256, srp_client, srp_n,
    srp_secrets_agree, SrpClient, SrpView,
};
use crate::numbers::{be_bytes, be_value, value_of_be_bytes};
use vstd::arithmetic::power::pow;
use vstd::prelude::*;
use vstd::utf8::*;

verus! {

/// How a player authenticates: by registering, or with a password that is known.
#[derive(Clone, Copy, Debug, PartialEq, Eq, Structural)]
pub enum AuthChoice {
    FirstSrp,
    Srp,
}

pub open spec fn offers(auth_mechs: u32, mechanism: u32) -> bool {
    auth_mechs & mechanism != 0
}

pub fn auth_mechanism_supported(auth_mechs: u32) -> (yes: bool)
    ensures
        yes == (offers(auth_mechs, AUTH_MECHANISM_FIRST_SRP) || offers(
            auth_mechs,
            AUTH_MECHANISM_SRP,
        )),
{
    auth_mechs & AUTH_MECHANISM_FIRST_SRP != 0 || auth_mechs & AUTH_MECHANISM_SRP != 0
}

pub fn auth_mechanism_choice(auth_mechs: u32) -> (choice: AuthChoice)
    ensures
        choice == (if offers(auth_mechs, AUTH_MECHANISM_FIRST_SRP) {
            AuthChoice::FirstSrp
        } else {
            AuthChoice::Srp
        }),
{
    if auth_mechs & AUTH_MECHANISM_FIRST_SRP != 0 {
        AuthChoice::FirstSrp
    } else {
        AuthChoice::Srp
    }
}

/// A client is ready once it has the definitions of items and nodes.
pub fn should_send_client_ready(got_itemdef: bool, got_nodedef: bool) -> (yes: bool)
    ensures
        yes == (got_itemdef && got_nodedef),
{
    got_itemdef && got_nodedef
}

pub open spec fn client_view(srp: Option<SrpClient>) -> Option<SrpView> {
    match srp {
        Some(c) => Some(c@),
        None => None,
    }
}

/// A player is registered with the given salt.
pub open spec fn registered_with(
    c: ConnectionView,
    player: Seq<char>,
    password: Seq<char>,
    salt: Seq<u8>,
) -> ConnectionView {
    let verifier = be_bytes(generated(private_key(lower_case(player), password, salt)));
    sent_reliably(c, first_srp_payload(salt, verifier, password.len() == 0))
}

impl MtpConnection {
    /// Registers a player with a random salt and the verifier of its password.
    pub fn send_first_srp(&mut self, player: &str, password: &str)
        requires
            old(self).wf(),
        ensures
            final(self).wf(),
            exists|salt: Seq<u8>|
                salt.len() == 16 && final(self)@ == #[trigger] registered_with(
                    old(self)@,
                    player@,
                    password@,
                    salt,
                ),
    {
        let (salt, verifier) = generate_srp_verifier_and_salt(player, password);
        self.send_srp_registration(salt.as_slice(), verifier.as_slice(), password.is_empty());
        assert(self@ == registered_with(old(self)@, player@, password@, salt@));
    }
}

/// A login is started: the client's public value is sent.
pub open spec fn login_begun(c: ConnectionView, client: SrpView) -> ConnectionView {
    sent_reliably(c, srp_a_payload(client.a_bytes))
}

/// Starts a login with the given client.
pub fn begin_login(conn: &mut MtpConnection, client: &SrpClient)
    requires
        old(conn).wf(),
    ensures
        final(conn).wf(),
        final(conn)@ == login_begun(old(conn)@, client@),
{
    conn.send_srp_a(client.public_value())
}

/// What starting an authentication does: where registration is offered, the player
/// is registered with some salt of 16 bytes; where a login is offered, a client with
/// some secret of 32 bytes starts it; otherwise nothing is done.
pub open spec fn authentication_started(
    before: (ConnectionView, Option<SrpView>),
    after: (ConnectionView, Option<SrpView>),
    player: Seq<char>,
    password: Seq<char>,
    auth_mechs: u32,
) -> bool {
    if offers(auth_mechs, AUTH_MECHANISM_FIRST_SRP) {
        &&& after.1 == before.1
        &&& exists|salt: Seq<u8>|
            salt.len() == 16 && after.0 == #[trigger] registered_with(
                before.0,
                player,
                password,
                salt,
            )
    } else if offers(auth_mechs, AUTH_MECHANISM_SRP) {
        &&& after.1 is Some
        &&& after.1->0 == srp_client(player, password, after.1->0.secret)
        &&& after.1->0.secret < pow(256, 32)
        &&& after.0 == login_begun(before.0, after.1->0)
    } else {
        after == before
    }
}

/// Starts the authentication that the server offers: where it offers to register,
/// the player is registered; where it offers a login, a client with a secret of its
/// own starts it. Where it offers neither, its offer is the error.
pub fn start_authentication(
    conn: &mut MtpConnection,
    player: &str,
    password: &str,
    auth_mechs: u32,
    srp: &mut Option<SrpClient>,
) -> (result: Result<(), u32>)
    requires
        old(conn).wf(),
    ensures
        final(conn).wf(),
        authentication_started(
            (old(conn)@, client_view(*old(srp))),
            (final(conn)@, client_view(*final(srp))),
            player@,
            password@,
            auth_mechs,
        ),
        result == (if offers(auth_mechs, AUTH_MECHANISM_FIRST_SRP) || offers(
            auth_mechs,
            AUTH_MECHANISM_SRP,
        ) {
            Ok::<(), u32>(())
        } else {
            Err::<(), u32>(auth_mechs)
        }),
{
    if !auth_mechanism_supported(auth_mechs) {
        return Err(auth_mechs);
    }
    match auth_mechanism_choice(auth_mechs) {
        AuthChoice::FirstSrp => conn.send_first_srp(player, password),
        AuthChoice::Srp => {
            let client = SrpClient::new(player, password);
            begin_login(conn, &client);
            *srp = Some(client);
        },
    }
    Ok(())
}

/// A client's answer to a challenge.
pub open spec fn answered(c: ConnectionView, client: SrpView, salt: Seq<u8>, b: Seq<u8>) -> ConnectionView {
    sent_reliably(
        c,
        srp_m_payload(
            challenge_answer(
                client.username_original,
                client.username_lower,
                client.password,
                client.secret,
                be_value(client.a_bytes),
                salt,
                be_value(b),
            ),
        ),
    )
}

/// Answers the server's challenge, if a login was started.
pub fn answer_srp_challenge(
    conn: &mut MtpConnection,
    srp: &Option<SrpClient>,
    salt: &[u8],
    b: &[u8],
)
    requires
        old(conn).wf(),
    ensures
        final(conn).wf(),
        final(conn)@ == (match client_view(*srp) {
            Some(client) => answered(old(conn)@, client, salt@, b@),
            None => old(conn)@,
        }),
{
    if let Some(client) = srp {
        let m: Vec<u8> = client.process_challenge(salt, b);
        conn.send_srp_m(m.as_slice());
    }
}

/// A player who is registered can log in: the proof that the client sends for its password
/// is the one that the server computes from the verifier that was registered, whatever
/// the salt and the secrets of both sides are.
pub proof fn registered_players_can_log_in(
    c: ConnectionView,
    d: ConnectionView,
    player: Seq<char>,
    password: Seq<char>,
    salt: Seq<u8>,
    a: nat,
    b: nat,
)
    ensures
        ({
            let x = be_value(
                sha256(
                    salt + sha256(
                        encode_utf8(lower_case(player)) + encode_utf8(":"@) + encode_utf8(password),
                    ),
                ),
            );
            let verifier = generated(x);
            let k = be_value(sha256(padded(srp_n(), n_len()) + padded(2, n_len())));
            let shown = server_public(b, k, verifier);
            let u = be_value(
                sha256(padded(generated(a), n_len()) + padded(shown, n_len())),
            );
            let shared = server_secret(generated(a), verifier, u, b);
            let client = srp_client(player, password, a);
            &&& registered_with(c, player, password, salt) == sent_reliably(
                c,
                first_srp_payload(salt, be_bytes(verifier), password.len() == 0),
            )
            &&& login_begun(d, client) == sent_reliably(d, srp_a_payload(be_bytes(generated(a))))
            &&& answered(d, client, salt, be_bytes(shown)) == sent_reliably(
                d,
                srp_m_payload(
                    sha256(
                        combined(sha256(be_bytes(srp_n())), sha256(be_bytes(2))) + sha256(
                            encode_utf8(player),
                        ) + salt + padded(generated(a), n_len()) + padded(shown, n_len()) + sha256(
                            be_bytes(shared),
                        ),
                    ),
                ),
            )
        }),
{
    let x = private_key(lower_case(player), password, salt);
    let k = hashed_pair(srp_n(), 2);
    let shown = server_public(b, k, generated(x));
    let u = hashed_pair(generated(a), shown);
    value_of_be_bytes(generated(a));
    value_of_be_bytes(shown);
    srp_secrets_agree(a, b, u, k, x);
}

/// Registration is chosen wherever it is offered, and a login only where registration is not;
/// the two offers are the third and the second bit.
pub proof fn registration_goes_before_login(
    before: (ConnectionView, Option<SrpView>),
    after: (ConnectionView, Option<SrpView>),
    player: Seq<char>,
    password: Seq<char>,
    auth_mechs: u32,
)
    requires
        authentication_started(before, after, player, password, auth_mechs),
    ensures
        (auth_mechs / 4) % 2 == 1 ==> after.1 == before.1 && exists|salt: Seq<u8>|
            salt.len() == 16 && after.0 == #[trigger] registered_with(
                before.0,
                player,
                password,
                salt,
            ),
        (auth_mechs / 4) % 2 == 0 && (auth_mechs / 2) % 2 == 1 ==> after.1 is Some
            && after.1->0.username_original == player && after.1->0.username_lower == lower_case(
            player,
        ) && after.1->0.password == password && after.0 == login_begun(before.0, after.1->0),
        (auth_mechs / 4) % 2 == 0 && (auth_mechs / 2) % 2 == 0 ==> after == before,
{
    assert((auth_mechs & 2 != 0) == ((auth_mechs / 2) % 2 == 1)) by (bit_vector);
    assert((auth_mechs & 4 != 0) == ((auth_mechs / 4) % 2 == 1)) by (bit_vector);
}

} // verus!
