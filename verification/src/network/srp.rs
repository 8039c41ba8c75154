//! Authentication with the secure remote password protocol.

use crate::numbers::{
    all_hex, at_least, be_bytes, be_value, difference, hex_digit_value, hex_value, mod_pow,
    number_from_hex, product, remainder, sum, value_is_bounded, value_of_be_bytes,
    without_leading_zeros,
};
use crate::text::push_all;
use rand::RngCore;
use sha2::{Digest, Sha256};
use vstd::arithmetic::div_mod::{
    lemma_add_mod_noop, lemma_mod_bound, lemma_mod_sub_multiples_vanish, lemma_mul_mod_noop,
    lemma_small_mod,
};
use vstd::arithmetic::power::{
    lemma_pow_adds, lemma_pow_mod_noop, lemma_pow_multiplies, lemma_pow_positive, pow,
};
use vstd::prelude::*;
use vstd::string::*;
use vstd::utf8::*;

verus! {

/// The SHA-256 digest of data.
pub uninterp spec fn sha256(data: Seq<u8>) -> Seq<u8>;

/// `Sha256::digest`: 32 bytes that depend on the data alone.
#[verifier::external_body]
pub(crate) fn hash_bytes(data: &[u8]) -> (digest: Vec<u8>)
    ensures
        digest@ == sha256(data@),
        digest@.len() == 32,
{
    Sha256::digest(data).to_vec()
}

/// `RngCore::fill_bytes` of the thread's generator: so many random bytes.
#[verifier::external_body]
pub(crate) fn random_bytes(count: usize) -> (bytes: Vec<u8>)
    ensures
        bytes@.len() == count,
{
    let mut bytes = vec![0u8; count];
    rand::thread_rng().fill_bytes(&mut bytes);
    bytes
}

/// A text in lower case, as `str::to_lowercase` gives it.
pub uninterp spec fn lower_case(s: Seq<char>) -> Seq<char>;

/// `str::to_lowercase` maps by the Unicode tables of the standard library.
#[verifier::external_body]
pub(crate) fn to_lower_case(s: &str) -> (lower: String)
    ensures
        lower@ == lower_case(s@),
{
    s.to_lowercase()
}

/// The digits of the 2048 bit group.
pub open spec fn srp_n_hex() -> Seq<char> {
    "AC6BDB41324A9A9BF166DE5E1389582FAF72B6651987EE07FC319294"@
        + "3DB56050A37329CBB4A099ED8193E0757767A13DD52312AB4B03310D"@
        + "CD7F48A9DA04FD50E8083969EDB767B0CF6095179A163AB3661A05FB"@
        + "D5FAAAE82918A9962F0B93B855F97993EC975EEAA80D740ADBF4FF74"@
        + "7359D041D5C33EA71D281E446B14773BCA97B43A23FB801676BD207A"@
        + "436C6481F1D2B9078717461A5B9D32E688F87748544523B524B0D57D"@
        + "5EA77A2775D2ECFA032CFBDBF52FB3786160279004E57AE6AF874E73"@
        + "03CE53299CCC041C7BC308D82A5698F3A8D0C38271AE35F8E9DBFBB6"@
        + "94B5C803D89F7AE435DE236D525F54759B65E372FCD68EF20FA7111F"@ + "9E4AFF73"@
}

/// The modulus.
pub open spec fn srp_n() -> nat {
    hex_value(srp_n_hex())
}

proof fn hex_value_positive(s: Seq<char>)
    requires
        s.len() > 0,
        all_hex(s),
        hex_digit_value(s[0]) > 0,
    ensures
        hex_value(s) > 0,
    decreases s.len(),
{
    if s.len() > 1 {
        hex_value_positive(s.drop_last());
    } else {
        assert(s.last() == s[0]);
    }
}

/// The modulus is written in hexadecimal digits and is not zero.
proof fn srp_n_is_a_number()
    ensures
        all_hex(srp_n_hex()),
        srp_n_hex().len() > 0,
        srp_n() > 0,
{
    reveal_strlit("AC6BDB41324A9A9BF166DE5E1389582FAF72B6651987EE07FC319294");
    reveal_strlit("3DB56050A37329CBB4A099ED8193E0757767A13DD52312AB4B03310D");
    reveal_strlit("CD7F48A9DA04FD50E8083969EDB767B0CF6095179A163AB3661A05FB");
    reveal_strlit("D5FAAAE82918A9962F0B93B855F97993EC975EEAA80D740ADBF4FF74");
    reveal_strlit("7359D041D5C33EA71D281E446B14773BCA97B43A23FB801676BD207A");
    reveal_strlit("436C6481F1D2B9078717461A5B9D32E688F87748544523B524B0D57D");
    reveal_strlit("5EA77A2775D2ECFA032CFBDBF52FB3786160279004E57AE6AF874E73");
    reveal_strlit("03CE53299CCC041C7BC308D82A5698F3A8D0C38271AE35F8E9DBFBB6");
    reveal_strlit("94B5C803D89F7AE435DE236D525F54759B65E372FCD68EF20FA7111F");
    reveal_strlit("9E4AFF73");
    assert(all_hex("AC6BDB41324A9A9BF166DE5E1389582FAF72B6651987EE07FC319294"@));
    assert(all_hex("3DB56050A37329CBB4A099ED8193E0757767A13DD52312AB4B03310D"@));
    assert(all_hex("CD7F48A9DA04FD50E8083969EDB767B0CF6095179A163AB3661A05FB"@));
    assert(all_hex("D5FAAAE82918A9962F0B93B855F97993EC975EEAA80D740ADBF4FF74"@));
    assert(all_hex("7359D041D5C33EA71D281E446B14773BCA97B43A23FB801676BD207A"@));
    assert(all_hex("436C6481F1D2B9078717461A5B9D32E688F87748544523B524B0D57D"@));
    assert(all_hex("5EA77A2775D2ECFA032CFBDBF52FB3786160279004E57AE6AF874E73"@));
    assert(all_hex("03CE53299CCC041C7BC308D82A5698F3A8D0C38271AE35F8E9DBFBB6"@));
    assert(all_hex("94B5C803D89F7AE435DE236D525F54759B65E372FCD68EF20FA7111F"@));
    assert(all_hex("9E4AFF73"@));
    assert(srp_n_hex()[0] == 'A');
    hex_value_positive(srp_n_hex());
}

/// The modulus as a number.
fn modulus() -> (n: Vec<u8>)
    ensures
        n@ == be_bytes(srp_n()),
        be_value(n@) == srp_n(),
        srp_n() > 0,
{
    let mut text = "AC6BDB41324A9A9BF166DE5E1389582FAF72B6651987EE07FC319294".to_owned();
    text.append("3DB56050A37329CBB4A099ED8193E0757767A13DD52312AB4B03310D");
    text.append("CD7F48A9DA04FD50E8083969EDB767B0CF6095179A163AB3661A05FB");
    text.append("D5FAAAE82918A9962F0B93B855F97993EC975EEAA80D740ADBF4FF74");
    text.append("7359D041D5C33EA71D281E446B14773BCA97B43A23FB801676BD207A");
    text.append("436C6481F1D2B9078717461A5B9D32E688F87748544523B524B0D57D");
    text.append("5EA77A2775D2ECFA032CFBDBF52FB3786160279004E57AE6AF874E73");
    text.append("03CE53299CCC041C7BC308D82A5698F3A8D0C38271AE35F8E9DBFBB6");
    text.append("94B5C803D89F7AE435DE236D525F54759B65E372FCD68EF20FA7111F");
    text.append("9E4AFF73");
    proof {
        srp_n_is_a_number();
        value_of_be_bytes(srp_n());
    }
    number_from_hex(text.as_str()).unwrap()
}

/// The generator, two, to the given power.
pub open spec fn generated(exponent: nat) -> nat {
    (pow(2, exponent) % srp_n() as int) as nat
}

/// A number with leading zeros up to a length.
pub open spec fn padded(n: nat, len: nat) -> Seq<u8> {
    let bytes = be_bytes(n);
    if bytes.len() >= len {
        bytes
    } else {
        Seq::new((len - bytes.len()) as nat, |i: int| 0u8) + bytes
    }
}

/// The length of the modulus in bytes.
pub open spec fn n_len() -> nat {
    be_bytes(srp_n()).len()
}

/// The digest of two numbers, as a number.
pub open spec fn hashed_pair(n1: nat, n2: nat) -> nat {
    be_value(sha256(padded(n1, n_len()) + padded(n2, n_len())))
}

/// The secret that a password stands for.
pub open spec fn private_key(lower: Seq<char>, password: Seq<char>, salt: Seq<u8>) -> nat {
    be_value(
        sha256(salt + sha256(encode_utf8(lower) + encode_utf8(":"@) + encode_utf8(password))),
    )
}

/// What the server's public value holds beside the verifier.
pub open spec fn server_share(b: nat, k: nat, x: nat) -> nat {
    let n = srp_n();
    let kv = (k * generated(x)) % n;
    if b >= kv {
        ((b - kv) as nat) % n
    } else {
        ((b + n - kv) as nat) % n
    }
}

/// The secret that client and server come to share, as the client computes it.
pub open spec fn client_secret(a: nat, b: nat, u: nat, k: nat, x: nat) -> nat {
    (pow(server_share(b, k, x) as int, a + u * x) % srp_n() as int) as nat
}

/// Two digests combined bit by bit.
pub open spec fn combined(p: Seq<u8>, q: Seq<u8>) -> Seq<u8> {
    Seq::new(p.len(), |i: int| p[i] ^ q[i])
}

/// What proves to the server that the client knows the shared secret.
pub open spec fn proof_bytes(
    username: Seq<char>,
    salt: Seq<u8>,
    a_pub: nat,
    b: nat,
    key: Seq<u8>,
) -> Seq<u8> {
    sha256(
        combined(sha256(be_bytes(srp_n())), sha256(be_bytes(2))) + sha256(encode_utf8(username))
            + salt + padded(a_pub, n_len()) + padded(b, n_len()) + key,
    )
}

/// The answer to a challenge.
pub open spec fn challenge_answer(
    original: Seq<char>,
    lower: Seq<char>,
    password: Seq<char>,
    a: nat,
    a_pub: nat,
    salt: Seq<u8>,
    b: nat,
) -> Seq<u8> {
    let u = hashed_pair(a_pub, b);
    let k = hashed_pair(srp_n(), 2);
    let x = private_key(lower, password, salt);
    let secret = client_secret(a, b, u, k, x);
    proof_bytes(original, salt, a_pub, b, sha256(be_bytes(secret)))
}

fn two() -> (n: Vec<u8>)
    ensures
        n@ == be_bytes(2),
        be_value(n@) == 2,
{
    let mut n: Vec<u8> = Vec::new();
    n.push(2);
    proof {
        assert(n@ =~= be_bytes(2));
        value_of_be_bytes(2);
    }
    n
}

/// The generator to the given power.
fn generate(exponent: &[u8]) -> (n: Vec<u8>)
    ensures
        n@ == be_bytes(generated(be_value(exponent@))),
{
    mod_pow(two().as_slice(), exponent, modulus().as_slice())
}

/// Pads a number, which is given without leading zeros.
fn pad_num(bytes: &[u8], len: usize) -> (out: Vec<u8>)
    ensures
        forall|n: nat| bytes@ == #[trigger] be_bytes(n) ==> out@ == padded(n, len as nat),
{
    let mut out: Vec<u8> = Vec::new();
    if bytes.len() < len {
        let missing: usize = len - bytes.len();
        while out.len() < missing
            invariant
                out@.len() <= missing,
                forall|i: int| 0 <= i < out@.len() ==> #[trigger] out@[i] == 0,
            decreases missing - out.len(),
        {
            out.push(0);
        }
    }
    let ghost zeros = out@;
    push_all(&mut out, bytes);
    proof {
        assert forall|n: nat| bytes@ == #[trigger] be_bytes(n) implies out@ == padded(
            n,
            len as nat,
        ) by {
            assert(out@ =~= padded(n, len as nat));
        }
    }
    out
}

/// The digest of two numbers, which are given without leading zeros.
fn h_nn(n1: &[u8], n2: &[u8], Ghost(v1): Ghost<nat>, Ghost(v2): Ghost<nat>) -> (h: Vec<u8>)
    requires
        n1@ == be_bytes(v1),
        n2@ == be_bytes(v2),
    ensures
        be_value(h@) == hashed_pair(v1, v2),
{
    let len: usize = modulus().len();
    let mut buf: Vec<u8> = pad_num(n1, len);
    push_all(&mut buf, pad_num(n2, len).as_slice());
    hash_bytes(buf.as_slice())
}

fn calculate_x(lower: &str, password: &str, salt: &[u8]) -> (x: Vec<u8>)
    ensures
        be_value(x@) == private_key(lower@, password@, salt@),
{
    let mut inner: Vec<u8> = Vec::new();
    push_all(&mut inner, lower.as_bytes());
    push_all(&mut inner, ":".as_bytes());
    push_all(&mut inner, password.as_bytes());
    assert(inner@ =~= encode_utf8(lower@) + encode_utf8(":"@) + encode_utf8(password@));
    let inner_hash: Vec<u8> = hash_bytes(inner.as_slice());
    let mut outer: Vec<u8> = Vec::new();
    push_all(&mut outer, salt);
    push_all(&mut outer, inner_hash.as_slice());
    assert(outer@ =~= salt@ + inner_hash@);
    hash_bytes(outer.as_slice())
}

fn combine(p: &[u8], q: &[u8]) -> (out: Vec<u8>)
    requires
        q.len() == p.len(),
    ensures
        out@ == combined(p@, q@),
{
    let mut out: Vec<u8> = Vec::new();
    let mut i: usize = 0;
    while i < p.len()
        invariant
            i <= p.len(),
            q.len() == p.len(),
            out@ =~= combined(p@, q@).take(i as int),
        decreases p.len() - i,
    {
        out.push(p[i] ^ q[i]);
        i = i + 1;
    }
    assert(combined(p@, q@).take(i as int) =~= combined(p@, q@));
    out
}

fn calculate_m(
    username: &str,
    salt: &[u8],
    a: &[u8],
    b: &[u8],
    key: &[u8],
    Ghost(a_pub): Ghost<nat>,
    Ghost(b_value): Ghost<nat>,
) -> (m: Vec<u8>)
    requires
        a@ == be_bytes(a_pub),
        b@ == be_bytes(b_value),
    ensures
        m@ == proof_bytes(username@, salt@, a_pub, b_value, key@),
{
    let n: Vec<u8> = modulus();
    let h_n: Vec<u8> = hash_bytes(n.as_slice());
    let h_g: Vec<u8> = hash_bytes(two().as_slice());
    let mut buf: Vec<u8> = combine(h_n.as_slice(), h_g.as_slice());
    let h_i: Vec<u8> = hash_bytes(username.as_bytes());
    push_all(&mut buf, h_i.as_slice());
    push_all(&mut buf, salt);
    push_all(&mut buf, pad_num(a, n.len()).as_slice());
    push_all(&mut buf, pad_num(b, n.len()).as_slice());
    push_all(&mut buf, key);
    hash_bytes(buf.as_slice())
}

/// A client that logs in.
pub struct SrpClient {
    username_original: String,
    username_lower: String,
    password: String,
    a: Vec<u8>,
    a_bytes: Vec<u8>,
}

/// The value of an [`SrpClient`].
pub ghost struct SrpView {
    pub username_original: Seq<char>,
    pub username_lower: Seq<char>,
    pub password: Seq<char>,
    /// The client's secret number.
    pub secret: nat,
    /// The client's public value, in bytes.
    pub a_bytes: Seq<u8>,
}

impl View for SrpClient {
    type V = SrpView;

    closed spec fn view(&self) -> SrpView {
        SrpView {
            username_original: self.username_original@,
            username_lower: self.username_lower@,
            password: self.password@,
            secret: be_value(self.a@),
            a_bytes: self.a_bytes@,
        }
    }
}

/// The client of a player with the given secret.
pub open spec fn srp_client(username: Seq<char>, password: Seq<char>, secret: nat) -> SrpView {
    SrpView {
        username_original: username,
        username_lower: lower_case(username),
        password,
        secret,
        a_bytes: be_bytes(generated(secret)),
    }
}

impl SrpClient {
    /// A client with a random secret of 32 bytes.
    pub fn new(username: &str, password: &str) -> (client: Self)
        ensures
            client@ == srp_client(username@, password@, client@.secret),
            client@.secret < pow(256, 32),
    {
        let secret: Vec<u8> = random_bytes(32);
        proof {
            value_is_bounded(secret@);
        }
        SrpClient::with_secret(username, password, secret)
    }

    /// A client with the given secret.
    pub fn with_secret(username: &str, password: &str, secret: Vec<u8>) -> (client: Self)
        ensures
            client@ == srp_client(username@, password@, be_value(secret@)),
    {
        let a_bytes: Vec<u8> = generate(secret.as_slice());
        SrpClient {
            username_original: username.to_owned(),
            username_lower: to_lower_case(username),
            password: password.to_owned(),
            a: secret,
            a_bytes,
        }
    }

    /// The public value that is sent to the server.
    pub fn public_value(&self) -> (a: &[u8])
        ensures
            a@ == self@.a_bytes,
    {
        self.a_bytes.as_slice()
    }

    /// The answer to the server's challenge.
    pub fn process_challenge(&self, salt: &[u8], b_bytes: &[u8]) -> (m: Vec<u8>)
        ensures
            m@ == challenge_answer(
                self@.username_original,
                self@.username_lower,
                self@.password,
                self@.secret,
                be_value(self@.a_bytes),
                salt@,
                be_value(b_bytes@),
            ),
    {
        let n: Vec<u8> = modulus();
        let a_pub: Vec<u8> = without_leading_zeros(self.a_bytes.as_slice());
        let b: Vec<u8> = without_leading_zeros(b_bytes);
        let ghost a_value = be_value(self.a_bytes@);
        let ghost b_value = be_value(b_bytes@);
        proof {
            value_of_be_bytes(b_value);
        }
        let u: Vec<u8> = h_nn(a_pub.as_slice(), b.as_slice(), Ghost(a_value), Ghost(b_value));
        let x: Vec<u8> = calculate_x(self.username_lower.as_str(), self.password.as_str(), salt);
        let k: Vec<u8> = h_nn(n.as_slice(), two().as_slice(), Ghost(srp_n()), Ghost(2nat));
        let v: Vec<u8> = generate(x.as_slice());
        let ghost verifier = generated(be_value(x@));
        proof {
            value_of_be_bytes(verifier);
            value_of_be_bytes(be_value(k@) * verifier);
            value_of_be_bytes((be_value(k@) * verifier) % srp_n());
        }
        let kv: Vec<u8> = remainder(product(k.as_slice(), v.as_slice()).as_slice(), n.as_slice());
        let ghost kv_value = (be_value(k@) * verifier) % srp_n();
        let base: Vec<u8> = if at_least(b.as_slice(), kv.as_slice()) {
            proof {
                value_of_be_bytes((b_value - kv_value) as nat);
            }
            remainder(difference(b.as_slice(), kv.as_slice()).as_slice(), n.as_slice())
        } else {
            proof {
                value_of_be_bytes(b_value + srp_n());
                value_of_be_bytes((b_value + srp_n() - kv_value) as nat);
            }
            let raised: Vec<u8> = sum(b.as_slice(), n.as_slice());
            remainder(difference(raised.as_slice(), kv.as_slice()).as_slice(), n.as_slice())
        };
        proof {
            value_of_be_bytes(server_share(b_value, be_value(k@), be_value(x@)));
            value_of_be_bytes(be_value(u@) * be_value(x@));
            value_of_be_bytes(self@.secret + be_value(u@) * be_value(x@));
        }
        let exponent: Vec<u8> = sum(
            self.a.as_slice(),
            product(u.as_slice(), x.as_slice()).as_slice(),
        );
        let s: Vec<u8> = mod_pow(base.as_slice(), exponent.as_slice(), n.as_slice());
        let key: Vec<u8> = hash_bytes(s.as_slice());
        calculate_m(
            self.username_original.as_str(),
            salt,
            a_pub.as_slice(),
            b.as_slice(),
            key.as_slice(),
            Ghost(a_value),
            Ghost(b_value),
        )
    }
}

/// The verifier of a password with the given salt.
pub fn srp_verifier(player: &str, password: &str, salt: &[u8]) -> (verifier: Vec<u8>)
    ensures
        verifier@ == be_bytes(generated(private_key(lower_case(player@), password@, salt@))),
{
    let lower = to_lower_case(player);
    let x: Vec<u8> = calculate_x(lower.as_str(), password, salt);
    generate(x.as_slice())
}

/// A random salt, and the verifier of a password with it.
pub fn generate_srp_verifier_and_salt(player: &str, password: &str) -> (r: (Vec<u8>, Vec<u8>))
    ensures
        r.0@.len() == 16,
        r.1@ == be_bytes(generated(private_key(lower_case(player@), password@, r.0@))),
{
    let salt: Vec<u8> = random_bytes(16);
    let verifier: Vec<u8> = srp_verifier(player, password, salt.as_slice());
    (salt, verifier)
}

/// The public value of a server with secret `b`, for a verifier.
pub open spec fn server_public(b: nat, k: nat, verifier: nat) -> nat {
    (k * verifier + generated(b)) % srp_n()
}

/// The shared secret, as the server computes it.
pub open spec fn server_secret(a_pub: nat, verifier: nat, u: nat, b: nat) -> nat {
    (pow((a_pub * pow(verifier as int, u)) as int, b) % srp_n() as int) as nat
}

proof fn share_is_recovered(b: nat, k: nat, x: nat)
    ensures
        server_share(server_public(b, k, generated(x)), k, x) == generated(b),
{
    let n = srp_n() as int;
    srp_n_is_a_number();
    lemma_pow_positive(2, b);
    lemma_mod_bound(pow(2, b), n);
    let g = generated(b) as int;
    let product = (k * generated(x)) as int;
    let kv = product % n;
    lemma_mod_bound(product, n);
    lemma_add_mod_noop(product, g, n);
    lemma_small_mod(g as nat, n as nat);
    lemma_small_mod(kv as nat, n as nat);
    assert((product + g) % n == (kv + g) % n);
    if kv + g < n {
        lemma_small_mod((kv + g) as nat, n as nat);
    } else {
        lemma_mod_sub_multiples_vanish(kv + g, n);
        lemma_small_mod((kv + g - n) as nat, n as nat);
    }
}

/// Client and server come to share a secret: where the server knows the verifier
/// of the password that the client knows, and its public value is made with it,
/// both compute the same number.
pub proof fn srp_secrets_agree(a: nat, b: nat, u: nat, k: nat, x: nat)
    ensures
        client_secret(a, server_public(b, k, generated(x)), u, k, x) == server_secret(
            generated(a),
            generated(x),
            u,
            b,
        ),
{
    let n = srp_n() as int;
    let e = a + u * x;
    srp_n_is_a_number();
    share_is_recovered(b, k, x);
    lemma_pow_positive(2, a);
    lemma_pow_positive(2, b);
    lemma_pow_positive(2, x);
    lemma_mod_bound(pow(2, a), n);
    lemma_mod_bound(pow(2, b), n);
    lemma_mod_bound(pow(2, x), n);
    // The client.
    lemma_pow_mod_noop(pow(2, b), e, n);
    lemma_pow_multiplies(2, b, e);
    assert(pow(generated(b) as int, e) % n == pow(2, b * e) % n);
    // The server.
    let v = generated(x) as int;
    let whole = generated(a) * pow(v, u);
    lemma_pow_mod_noop(pow(2, x), u, n);
    lemma_pow_multiplies(2, x, u);
    lemma_mul_mod_noop(generated(a) as int, pow(v, u), n);
    lemma_mul_mod_noop(pow(2, a), pow(2, x * u), n);
    lemma_small_mod(generated(a), n as nat);
    lemma_pow_adds(2, a, x * u);
    assert(whole % n == pow(2, a + x * u) % n);
    lemma_pow_mod_noop(whole as int, b, n);
    lemma_pow_mod_noop(pow(2, a + x * u), b, n);
    lemma_pow_multiplies(2, a + x * u, b);
    assert(b * e == (a + x * u) * b) by (nonlinear_arith)
        requires
            e == a + u * x,
    ;
    assert(x * u == u * x) by (nonlinear_arith);
}

/// Leading zeros fill a number up to a length and do not change it.
pub proof fn padding_keeps_the_number(n: nat, len: nat)
    ensures
        padded(n, len).len() >= len,
        be_bytes(n).len() <= len ==> padded(n, len).len() == len,
        be_value(padded(n, len)) == n,
{
    let bytes = be_bytes(n);
    value_of_be_bytes(n);
    if bytes.len() < len {
        leading_zeros_do_not_count((len - bytes.len()) as nat, bytes);
    }
}

proof fn leading_zeros_do_not_count(count: nat, bytes: Seq<u8>)
    ensures
        be_value(Seq::new(count, |i: int| 0u8) + bytes) == be_value(bytes),
    decreases bytes.len(),
{
    let zeros = Seq::new(count, |i: int| 0u8);
    if bytes.len() == 0 {
        assert(zeros + bytes =~= zeros);
        zeros_are_zero(count);
    } else {
        assert((zeros + bytes).drop_last() =~= zeros + bytes.drop_last());
        leading_zeros_do_not_count(count, bytes.drop_last());
    }
}

proof fn zeros_are_zero(count: nat)
    ensures
        be_value(Seq::new(count, |i: int| 0u8)) == 0,
    decreases count,
{
    let zeros = Seq::new(count, |i: int| 0u8);
    if count > 0 {
        assert(zeros.drop_last() =~= Seq::new((count - 1) as nat, |i: int| 0u8));
        zeros_are_zero((count - 1) as nat);
    }
}

/// Two digests are combined byte by byte, and combining with the second one again gives the first
/// one back.
pub proof fn combining_twice_undoes_itself(p: Seq<u8>, q: Seq<u8>)
    requires
        p.len() == q.len(),
    ensures
        combined(p, q).len() == p.len(),
        combined(combined(p, q), q) == p,
        forall|i: int| 0 <= i < p.len() ==> #[trigger] combined(p, q)[i] == p[i] ^ q[i],
{
    assert forall|i: int| 0 <= i < p.len() implies #[trigger] combined(combined(p, q), q)[i]
        == p[i] by {
        let a = p[i];
        let b = q[i];
        assert((a ^ b) ^ b == a) by (bit_vector);
    }
    assert(combined(combined(p, q), q) =~= p);
}

} // verus!
