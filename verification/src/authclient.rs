//! Authorized clients for encrypted descriptors: the configuration entry
//! naming either a directory of client keys or one curve25519 key, and
//! its textual form `dir:<path>` / `curve25519:<base64>`.

use vstd::prelude::*;
use base64ct::Encoding;
use crate::seqx::{lemma_first_where_is, lemma_first_where_none, seq_first_where};

verus! {

/// Configuration for descriptor encryption: the list of authorized
/// clients.  An empty list means no client can connect.
#[derive(Debug)]
pub struct DescEncryptionConfig {
    /// The authorized clients.
    pub authorized_client: Vec<AuthorizedClientConfig>,
}

/// A single client (or collection of clients) authorized by the
/// descriptor encryption mechanism.
#[derive(Debug)]
pub enum AuthorizedClientConfig {
    /// A directory full of authorized public keys, as a path.
    DirectoryOfKeys(Vec<u8>),
    /// A single authorized curve25519 public key (32 bytes).
    Curve25519Key(Vec<u8>),
}

/// A problem encountered while parsing an [`AuthorizedClientConfig`].
#[derive(Clone, Copy, PartialEq, Eq, Structural, Debug)]
pub enum AuthorizedClientParseError {
    /// The type tag was neither `dir` nor `curve25519`.
    InvalidType,
    /// The curve25519 key did not decode to 32 bytes.
    InvalidKey,
}

/// What base64 (unpadded, standard alphabet) decoding returns for the
/// given bytes: the decoded bytes, or nothing if the input is not valid
/// base64 (or not valid UTF-8).
pub uninterp spec fn b64_unpadded_decode(s: Seq<u8>) -> Option<Seq<u8>>;

/// What base64 (unpadded, standard alphabet) encoding returns for the
/// given bytes.
pub uninterp spec fn b64_unpadded_encode(b: Seq<u8>) -> Seq<u8>;

/// Relies on `core::str::from_utf8` and base64ct's
/// `Base64Unpadded::decode_vec`: together a deterministic function of the
/// input bytes, failing exactly on text that is not unpadded base64.
#[verifier::external_body]
fn b64_decode(s: &Vec<u8>) -> (r: Option<Vec<u8>>)
    ensures
        r is Some <==> b64_unpadded_decode(s@) is Some,
        r matches Some(v) ==> Some(v@) == b64_unpadded_decode(s@),
{
    match core::str::from_utf8(s.as_slice()) {
        Ok(text) => base64ct::Base64Unpadded::decode_vec(text).ok(),
        Err(_) => None,
    }
}

/// Relies on base64ct's `Base64Unpadded::encode_string` and
/// `Base64Unpadded::decode_vec`: encoding is a deterministic function of
/// the input bytes; decoding an encoding gives the bytes back; and the
/// encoding is drawn from the standard alphabet (letters, digits, `+`,
/// `/`), which holds no colon.
#[verifier::external_body]
fn b64_encode(b: &Vec<u8>) -> (r: Vec<u8>)
    ensures
        r@ == b64_unpadded_encode(b@),
        b64_unpadded_decode(r@) == Some(b@),
        forall|i: int| 0 <= i < r@.len() ==> #[trigger] r@[i] != COLON,
{
    base64ct::Base64Unpadded::encode_string(b.as_slice()).into_bytes()
}

/// The position of the first colon, if any.
fn first_colon(s: &Vec<u8>) -> (r: Option<usize>)
    ensures
        match r {
            Some(c) => seq_first_where(s@, |b: u8| is_colon(b)) == Some(c as int),
            None => seq_first_where(s@, |b: u8| is_colon(b)) is None,
        },
{
    let ghost p = |b: u8| is_colon(b);
    let n = s.len();
    let mut i: usize = 0;
    while i < n
        invariant
            i <= n,
            n == s@.len(),
            p == (|b: u8| is_colon(b)),
            forall|x: int| 0 <= x < i ==> !p(#[trigger] s@[x]),
        decreases n - i,
    {
        if s[i] == COLON {
            proof {
                lemma_first_where_is(s@, p, i as int);
            }
            return Some(i);
        }
        i += 1;
    }
    proof {
        lemma_first_where_none(s@, p);
    }
    None
}

/// The ASCII colon.
pub const COLON: u8 = 58;

/// Whether a byte is the colon separator.
pub open spec fn is_colon(b: u8) -> bool {
    b == COLON
}

/// The bytes of the `dir` type tag.
pub open spec fn dir_tag() -> Seq<u8> {
    seq![100u8, 105u8, 114u8]
}

/// The bytes of the `curve25519` type tag.
pub open spec fn curve_tag() -> Seq<u8> {
    seq![99u8, 117u8, 114u8, 118u8, 101u8, 50u8, 53u8, 53u8, 49u8, 57u8]
}

/// Parse the textual form of an authorized client entry.
///
/// `dir:<path>` names a directory of keys; `curve25519:<base64>` names
/// one key, whose unpadded base64 must decode to exactly 32 bytes.  Any
/// other tag is `InvalidType`; a bad key is `InvalidKey`.
pub fn parse_auth_client(s: &Vec<u8>) -> (r: Result<
    AuthorizedClientConfig,
    AuthorizedClientParseError,
>)
    ensures
        ({
            match seq_first_where(s@, |b: u8| is_colon(b)) {
                None => r == Err::<AuthorizedClientConfig, AuthorizedClientParseError>(
                    AuthorizedClientParseError::InvalidType,
                ),
                Some(ci) => {
                    let tag = s@.take(ci);
                    let rest = s@.skip(ci + 1);
                    if tag == dir_tag() {
                        r matches Ok(c) && c matches AuthorizedClientConfig::DirectoryOfKeys(p)
                            && p@ == rest
                    } else if tag == curve_tag() {
                        match b64_unpadded_decode(rest) {
                            Some(v) => if v.len() == 32 {
                                r matches Ok(c) && c matches AuthorizedClientConfig::Curve25519Key(
                                    k,
                                ) && k@ == v
                            } else {
                                r == Err::<AuthorizedClientConfig, AuthorizedClientParseError>(
                                    AuthorizedClientParseError::InvalidKey,
                                )
                            },
                            None => r == Err::<AuthorizedClientConfig, AuthorizedClientParseError>(
                                AuthorizedClientParseError::InvalidKey,
                            ),
                        }
                    } else {
                        r == Err::<AuthorizedClientConfig, AuthorizedClientParseError>(
                            AuthorizedClientParseError::InvalidType,
                        )
                    }
                },
            }
        }),
{
    let ghost p = |b: u8| is_colon(b);
    let n = s.len();
    let ci = match first_colon(s) {
        Some(c) => c,
        None => {
            return Err(AuthorizedClientParseError::InvalidType);
        },
    };
    proof {
        crate::seqx::lemma_first_where_sound(s@, p);
    }
    // The rest of the text, after the colon.
    let mut rest: Vec<u8> = Vec::new();
    let mut q: usize = ci + 1;
    while q < n
        invariant
            ci + 1 <= q <= n,
            n == s@.len(),
            rest@ == s@.subrange(ci + 1, q as int),
        decreases n - q,
    {
        rest.push(s[q]);
        q += 1;
    }
    proof {
        assert(rest@ =~= s@.skip(ci + 1));
    }
    // Which tag stands before the colon?
    let is_dir = ci == 3 && s[0] == 100 && s[1] == 105 && s[2] == 114;
    proof {
        if is_dir {
            assert(s@.take(ci as int) =~= dir_tag());
        } else {
            assert(s@.take(ci as int) != dir_tag()) by {
                if s@.take(ci as int) == dir_tag() {
                    assert(s@.take(ci as int).len() == 3);
                    assert(s@.take(ci as int)[0] == s@[0]);
                    assert(s@.take(ci as int)[1] == s@[1]);
                    assert(s@.take(ci as int)[2] == s@[2]);
                }
            }
        }
    }
    if is_dir {
        return Ok(AuthorizedClientConfig::DirectoryOfKeys(rest));
    }
    let is_curve = ci == 10 && s[0] == 99 && s[1] == 117 && s[2] == 114 && s[3] == 118 && s[4]
        == 101 && s[5] == 50 && s[6] == 53 && s[7] == 53 && s[8] == 49 && s[9] == 57;
    proof {
        if is_curve {
            assert(s@.take(ci as int) =~= curve_tag());
        } else {
            assert(s@.take(ci as int) != curve_tag()) by {
                if s@.take(ci as int) == curve_tag() {
                    assert(s@.take(ci as int).len() == 10);
                    assert(forall|x: int|
                        0 <= x < 10 ==> #[trigger] s@.take(ci as int)[x] == s@[x]);
                    assert(s@[0] == 99 && s@[1] == 117 && s@[2] == 114 && s@[3] == 118 && s@[4]
                        == 101 && s@[5] == 50 && s@[6] == 53 && s@[7] == 53 && s@[8] == 49 && s@[9]
                        == 57);
                }
            }
        }
    }
    if is_curve {
        match b64_decode(&rest) {
            Some(v) => {
                if v.len() == 32 {
                    return Ok(AuthorizedClientConfig::Curve25519Key(v));
                }
                return Err(AuthorizedClientParseError::InvalidKey);
            },
            None => {
                return Err(AuthorizedClientParseError::InvalidKey);
            },
        }
    }
    Err(AuthorizedClientParseError::InvalidType)
}

impl AuthorizedClientConfig {
    /// The textual form: `dir:<path>` or `curve25519:<base64 key>`.
    pub fn to_text(&self) -> (r: Vec<u8>)
        ensures
            ({
                match self {
                    AuthorizedClientConfig::DirectoryOfKeys(p) => r@ == dir_tag() + seq![COLON]
                        + p@,
                    AuthorizedClientConfig::Curve25519Key(k) => {
                        &&& r@ == curve_tag() + seq![COLON] + b64_unpadded_encode(k@)
                        &&& b64_unpadded_decode(b64_unpadded_encode(k@)) == Some(k@)
                        &&& forall|i: int|
                            0 <= i < b64_unpadded_encode(k@).len() ==> #[trigger] b64_unpadded_encode(
                                k@,
                            )[i] != COLON
                    },
                }
            }),
    {
        let mut out: Vec<u8> = Vec::new();
        match self {
            AuthorizedClientConfig::DirectoryOfKeys(p) => {
                out.push(100);
                out.push(105);
                out.push(114);
                out.push(COLON);
                let mut i: usize = 0;
                while i < p.len()
                    invariant
                        i <= p@.len(),
                        out@ == dir_tag() + seq![COLON] + p@.subrange(0, i as int),
                    decreases p@.len() - i,
                {
                    out.push(p[i]);
                    proof {
                        assert(out@ =~= dir_tag() + seq![COLON] + p@.subrange(0, i + 1));
                    }
                    i += 1;
                }
                proof {
                    assert(out@ =~= dir_tag() + seq![COLON] + p@);
                }
            },
            AuthorizedClientConfig::Curve25519Key(k) => {
                out.push(99);
                out.push(117);
                out.push(114);
                out.push(118);
                out.push(101);
                out.push(50);
                out.push(53);
                out.push(53);
                out.push(49);
                out.push(57);
                out.push(COLON);
                let enc = b64_encode(k);
                let mut i: usize = 0;
                while i < enc.len()
                    invariant
                        i <= enc@.len(),
                        enc@ == b64_unpadded_encode(k@),
                        out@ == curve_tag() + seq![COLON] + enc@.subrange(0, i as int),
                    decreases enc@.len() - i,
                {
                    out.push(enc[i]);
                    proof {
                        assert(out@ =~= curve_tag() + seq![COLON] + enc@.subrange(0, i + 1));
                    }
                    i += 1;
                }
                proof {
                    assert(out@ =~= curve_tag() + seq![COLON] + b64_unpadded_encode(k@));
                }
            },
        }
        out
    }
}

/// Printing an authorized-client entry and parsing the text gives the
/// entry back: the round trip is the identity, for both the directory
/// form and the (32-byte) key form.
pub fn text_round_trip(x: &AuthorizedClientConfig) -> (r: Result<
    AuthorizedClientConfig,
    AuthorizedClientParseError,
>)
    requires
        (x matches AuthorizedClientConfig::Curve25519Key(k) ==> k@.len() == 32),
    ensures
        ({
            match x {
                AuthorizedClientConfig::DirectoryOfKeys(p) => r matches Ok(c) && (
                c matches AuthorizedClientConfig::DirectoryOfKeys(p2) && p2@ == p@),
                AuthorizedClientConfig::Curve25519Key(k) => r matches Ok(c) && (
                c matches AuthorizedClientConfig::Curve25519Key(k2) && k2@ == k@),
            }
        }),
{
    let t = x.to_text();
    let ghost p = |b: u8| is_colon(b);
    proof {
        match x {
            AuthorizedClientConfig::DirectoryOfKeys(path) => {
                assert(t@[0] == 100 && t@[1] == 105 && t@[2] == 114 && t@[3] == COLON);
                assert(forall|q: int| 0 <= q < 3 ==> !p(#[trigger] t@[q]));
                lemma_first_where_is(t@, p, 3);
                assert(t@.take(3) =~= dir_tag());
                assert(t@.skip(4) =~= path@);
            },
            AuthorizedClientConfig::Curve25519Key(k) => {
                assert(t@[0] == 99 && t@[1] == 117 && t@[2] == 114 && t@[3] == 118 && t@[4]
                    == 101 && t@[5] == 50 && t@[6] == 53 && t@[7] == 53 && t@[8] == 49 && t@[9]
                    == 57 && t@[10] == COLON);
                assert(forall|q: int| 0 <= q < 10 ==> !p(#[trigger] t@[q]));
                lemma_first_where_is(t@, p, 10);
                assert(t@.take(10) =~= curve_tag());
                assert(t@.skip(11) =~= b64_unpadded_encode(k@));
            },
        }
    }
    parse_auth_client(&t)
}

} // verus!
