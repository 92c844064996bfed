//! Configuration for one onion service.

use vstd::prelude::*;

verus! {

/// Largest supported number of introduction points.
pub const MAX_INTRO_POINTS: u8 = 20;

/// Default number of introduction points.
pub const DEFAULT_NUM_INTRO_POINTS: u8 = 3;

/// Default cap on concurrently open streams per circuit.
pub const DEFAULT_MAX_STREAMS_PER_CIRCUIT: u32 = 65535;

/// One day, in milliseconds.
pub const DAY_MS: u64 = 86400000;

/// Whether `b` may appear in a service nickname.
///
/// Nicknames are ASCII letters, digits, `-` and `_`.
pub open spec fn nickname_byte_ok(b: u8) -> bool {
    (97 <= b <= 122) || (65 <= b <= 90) || (48 <= b <= 57) || b == 45 || b == 95
}

/// Whether `s` is a well-formed service nickname: nonempty, at most 255
/// bytes, every byte a letter, digit, `-` or `_`.
pub open spec fn nickname_ok(s: Seq<u8>) -> bool {
    1 <= s.len() <= 255 && forall|i: int| 0 <= i < s.len() ==> nickname_byte_ok(#[trigger] s[i])
}

/// The nickname of an onion service: the key under which its keys, state
/// and configuration are looked up.
#[derive(Debug)]
pub struct HsNickname {
    /// The nickname's bytes.
    bytes: Vec<u8>,
}

/// The given nickname was not well-formed.
#[derive(Clone, Copy, PartialEq, Eq, Structural, Debug)]
pub struct InvalidNickname {}

impl View for HsNickname {
    type V = Seq<u8>;

    closed spec fn view(&self) -> Seq<u8> {
        self.bytes@
    }
}

impl HsNickname {
    /// Make a nickname from its bytes, refusing a malformed one.
    pub fn new(bytes: Vec<u8>) -> (r: Result<HsNickname, InvalidNickname>)
        ensures
            nickname_ok(bytes@) <==> r is Ok,
            r matches Ok(n) ==> n@ == bytes@,
    {
        if bytes.len() < 1 || bytes.len() > 255 {
            return Err(InvalidNickname {});
        }
        let mut i: usize = 0;
        while i < bytes.len()
            invariant
                i <= bytes.len(),
                forall|j: int| 0 <= j < i ==> nickname_byte_ok(#[trigger] bytes@[j]),
            decreases bytes.len() - i,
        {
            let b = bytes[i];
            let ok = (97 <= b && b <= 122) || (65 <= b && b <= 90) || (48 <= b && b <= 57) || b
                == 45 || b == 95;
            if !ok {
                return Err(InvalidNickname {});
            }
            i += 1;
        }
        Ok(HsNickname { bytes })
    }

    /// The nickname's bytes.
    pub fn as_bytes(&self) -> (r: &Vec<u8>)
        ensures
            r@ == self@,
    {
        &self.bytes
    }

    /// A copy of this nickname.
    pub fn duplicate(&self) -> (r: HsNickname)
        ensures
            r@ == self@,
    {
        let mut bytes: Vec<u8> = Vec::new();
        let mut i: usize = 0;
        while i < self.bytes.len()
            invariant
                i <= self.bytes.len(),
                bytes@ == self.bytes@.subrange(0, i as int),
            decreases self.bytes.len() - i,
        {
            bytes.push(self.bytes[i]);
            i += 1;
        }
        assert(bytes@ == self.bytes@);
        HsNickname { bytes }
    }

    /// Whether two nicknames are the same.
    pub fn same_as(&self, other: &HsNickname) -> (r: bool)
        ensures
            r == (self@ == other@),
    {
        if self.bytes.len() != other.bytes.len() {
            assert(self@.len() != other@.len());
            return false;
        }
        let mut i: usize = 0;
        while i < self.bytes.len()
            invariant
                i <= self.bytes.len(),
                self.bytes@.len() == other.bytes@.len(),
                forall|j: int| 0 <= j < i ==> self.bytes@[j] == other.bytes@[j],
            decreases self.bytes.len() - i,
        {
            if self.bytes[i] != other.bytes[i] {
                return false;
            }
            i += 1;
        }
        assert(self@ =~= other@);
        true
    }
}

/// Whether the service hides where it is hosted.
#[derive(Clone, Copy, PartialEq, Eq, Structural, Debug)]
pub enum Anonymity {
    /// An ordinary, location-hiding onion service.
    Anonymous,
    /// A non-anonymous "single onion service".
    SingleOnion,
}

/// A token-bucket style limit on some process: at most `burst` at once,
/// refilled at `rate` per second.
#[derive(Clone, Copy, PartialEq, Eq, Structural, Debug)]
pub struct TokenBucketConfig {
    /// The maximum number of items to process per second.
    pub rate: u32,
    /// The maximum number of items to process in a single burst.
    pub burst: u32,
}

impl TokenBucketConfig {
    /// Create a new token-bucket configuration to rate-limit some action.
    ///
    /// The "bucket" will have a maximum capacity of `burst`, and will fill
    /// at a rate of `rate` per second.  New actions are permitted if the
    /// bucket is nonempty; each action removes one token from the bucket.
    pub fn new(rate: u32, burst: u32) -> (r: Self)
        ensures
            r.rate == rate,
            r.burst == burst,
    {
        Self { rate, burst }
    }
}

/// The `DOS_PARAMS` extension values sent to an introduction point.
#[derive(Clone, Copy, PartialEq, Eq, Structural, Debug)]
pub struct DosParams {
    /// Permitted introduction-request rate, per second.
    pub rate: i32,
    /// Permitted introduction-request burst.
    pub burst: i32,
}

/// An error building or validating a configuration.
#[derive(Clone, Copy, Debug)]
pub enum ConfigBuildError {
    /// A mandatory field was not given.
    MissingField {
        /// Which field.
        field: &'static str,
    },
    /// A field's value is out of range or inconsistent.
    Invalid {
        /// Which field.
        field: &'static str,
        /// What is wrong with it.
        problem: &'static str,
    },
}

/// A reconfiguration was refused.
#[derive(Clone, Copy, Debug)]
pub enum ReconfigureError {
    /// The named option cannot change on a running service.
    CannotChange {
        /// Which field.
        field: &'static str,
    },
}

/// How strictly to apply a reconfiguration.
#[derive(Clone, Copy, PartialEq, Eq, Structural, Debug)]
pub enum Reconfigure {
    /// Apply everything, or fail without changing anything.
    AllOrNothing,
    /// Only check whether everything could be applied.
    CheckAllOrNothing,
    /// Apply what can be applied; warn about the rest.
    WarnOnFailures,
}

/// Whether a token-bucket limit fits in the wire extension, whose fields
/// are 31-bit.
pub open spec fn rate_limit_ok(c: TokenBucketConfig) -> bool {
    c.rate <= 0x7fffffff && c.burst <= 0x7fffffff
}

/// Try to create wire-format DoS parameters from a token bucket limit.
///
/// Gives an error if either value is out of range for the extension.
pub fn dos_params_from_token_bucket_config(c: &TokenBucketConfig) -> (r: Result<
    DosParams,
    ConfigBuildError,
>)
    ensures
        rate_limit_ok(*c) ==> r == Ok::<DosParams, ConfigBuildError>(
            DosParams { rate: c.rate as i32, burst: c.burst as i32 },
        ),
        !rate_limit_ok(*c) ==> r == Err::<DosParams, ConfigBuildError>(
            ConfigBuildError::Invalid { field: "rate_limit_at_intro", problem: "out of range" },
        ),
{
    if c.rate <= 0x7fffffff && c.burst <= 0x7fffffff {
        Ok(DosParams { rate: c.rate as i32, burst: c.burst as i32 })
    } else {
        Err(ConfigBuildError::Invalid { field: "rate_limit_at_intro", problem: "out of range" })
    }
}

/// Configuration for one onion service.
#[derive(Debug)]
pub struct OnionServiceConfig {
    /// The nickname used to look up this service's keys, state,
    /// configuration, etc.
    pub nickname: HsNickname,
    /// Whether we want this to be a non-anonymous "single onion service".
    pub anonymity: Anonymity,
    /// Number of introduction points to maintain.
    pub num_intro_points: u8,
    /// A rate-limit on the acceptable rate of introduction requests,
    /// sent to each introduction point; the introduction point chooses a
    /// default when this is absent.
    pub rate_limit_at_intro: Option<TokenBucketConfig>,
    /// How many streams may be open at once for a single circuit on this
    /// service.
    pub max_concurrent_streams_per_circuit: u32,
}

/// Whether a built configuration is internally consistent.
pub open spec fn config_ok(c: &OnionServiceConfig) -> bool {
    &&& 1 <= c.num_intro_points <= MAX_INTRO_POINTS
    &&& (c.rate_limit_at_intro matches Some(rl) ==> rate_limit_ok(rl))
    &&& nickname_ok(c.nickname@)
}

impl OnionServiceConfig {
    /// Return a reference to this configuration's nickname.
    pub fn nickname(&self) -> (r: &HsNickname)
        ensures
            r@ == self.nickname@,
    {
        &self.nickname
    }

    /// The range, in milliseconds, from which each new IPT relay's time in
    /// service is drawn: four to seven days.
    pub fn ipt_relay_rotation_time(&self) -> (r: (u64, u64))
        ensures
            r.0 == 4 * DAY_MS,
            r.1 == 7 * DAY_MS,
            r.0 <= r.1,
    {
        (4 * DAY_MS, 7 * DAY_MS)
    }

    /// Return the DoS parameters we should send for this configuration,
    /// if any.
    pub fn dos_extension(&self) -> (r: Result<Option<DosParams>, FatalErrorToken>)
        ensures
            ({
                match self.rate_limit_at_intro {
                    None => r == Ok::<Option<DosParams>, FatalErrorToken>(None),
                    Some(rl) => if rate_limit_ok(rl) {
                        r == Ok::<Option<DosParams>, FatalErrorToken>(
                            Some(DosParams { rate: rl.rate as i32, burst: rl.burst as i32 }),
                        )
                    } else {
                        r is Err
                    },
                }
            }),
    {
        match &self.rate_limit_at_intro {
            None => Ok(None),
            Some(rl) => {
                match dos_params_from_token_bucket_config(rl) {
                    Ok(p) => Ok(Some(p)),
                    Err(_) => Err(FatalErrorToken {}),
                }
            },
        }
    }

    /// A copy of this configuration.
    pub fn snapshot(&self) -> (r: OnionServiceConfig)
        ensures
            r.nickname@ == self.nickname@,
            r.anonymity == self.anonymity,
            r.num_intro_points == self.num_intro_points,
            r.rate_limit_at_intro == self.rate_limit_at_intro,
            r.max_concurrent_streams_per_circuit == self.max_concurrent_streams_per_circuit,
    {
        OnionServiceConfig {
            nickname: self.nickname.duplicate(),
            anonymity: self.anonymity,
            num_intro_points: self.num_intro_points,
            rate_limit_at_intro: self.rate_limit_at_intro,
            max_concurrent_streams_per_circuit: self.max_concurrent_streams_per_circuit,
        }
    }

    /// Check whether a service running with this configuration can switch
    /// over to `other` under the rules of `how`; on success return the
    /// configuration to switch to.
    ///
    /// The nickname and the anonymity of a running service cannot change.
    /// Under `WarnOnFailures` an attempt to change them keeps the old
    /// value; under the other modes it is an error.
    pub fn for_transition_to(&self, other: OnionServiceConfig, how: Reconfigure) -> (r: Result<
        OnionServiceConfig,
        ReconfigureError,
    >)
        ensures
            ({
                let nick_change = self.nickname@ != other.nickname@;
                let anon_change = self.anonymity != other.anonymity;
                &&& (nick_change && !(how is WarnOnFailures)) ==> r == Err::<
                    OnionServiceConfig,
                    ReconfigureError,
                >(ReconfigureError::CannotChange { field: "nickname" })
                &&& (!(nick_change && !(how is WarnOnFailures)) && anon_change && !(how
                    is WarnOnFailures)) ==> r == Err::<OnionServiceConfig, ReconfigureError>(
                    ReconfigureError::CannotChange { field: "anonymity" },
                )
                &&& (!(nick_change && !(how is WarnOnFailures)) && !(anon_change && !(how
                    is WarnOnFailures))) ==> (r matches Ok(c) && c.nickname@ == self.nickname@
                    && c.anonymity == self.anonymity && c.num_intro_points
                    == other.num_intro_points && c.rate_limit_at_intro
                    == other.rate_limit_at_intro && c.max_concurrent_streams_per_circuit
                    == other.max_concurrent_streams_per_circuit)
            }),
    {
        let mut other = other;
        if !self.nickname.same_as(&other.nickname) {
            match how {
                Reconfigure::WarnOnFailures => {
                    other.nickname = self.nickname.duplicate();
                },
                _ => {
                    return Err(ReconfigureError::CannotChange { field: "nickname" });
                },
            }
        }
        if self.anonymity != other.anonymity {
            match how {
                Reconfigure::WarnOnFailures => {
                    other.anonymity = self.anonymity;
                },
                _ => {
                    return Err(ReconfigureError::CannotChange { field: "anonymity" });
                },
            }
        }
        Ok(other)
    }
}

/// Marker for a fatal internal error raised by configuration handling.
///
/// (`dos_extension` can only fail on a configuration that escaped
/// validation.)
#[derive(Clone, Copy, PartialEq, Eq, Structural, Debug)]
pub struct FatalErrorToken {}

/// Builder for [`OnionServiceConfig`]: unset fields take their defaults
/// when the configuration is built.
#[derive(Debug)]
pub struct OnionServiceConfigBuilder {
    /// The nickname, which has no default: it must be set.
    nickname: Option<HsNickname>,
    /// The anonymity, default [`Anonymity::Anonymous`].
    anonymity: Option<Anonymity>,
    /// The number of introduction points, default 3.
    num_intro_points: Option<u8>,
    /// The introduction-request rate limit, default none.
    rate_limit_at_intro: Option<Option<TokenBucketConfig>>,
    /// The per-circuit stream cap, default 65535.
    max_concurrent_streams_per_circuit: Option<u32>,
}

impl Default for OnionServiceConfigBuilder {
    /// A builder with every field unset.
    fn default() -> (r: Self)
        ensures
            r.peek_nickname_spec() is None,
            r.spec_num_intro_points() is None,
            r.spec_anonymity() is None,
            r.spec_rate_limit_at_intro() is None,
            r.spec_max_concurrent_streams_per_circuit() is None,
    {
        OnionServiceConfigBuilder {
            nickname: None,
            anonymity: None,
            num_intro_points: None,
            rate_limit_at_intro: None,
            max_concurrent_streams_per_circuit: None,
        }
    }
}

impl OnionServiceConfigBuilder {
    /// The nickname set so far, if any (spec view).
    pub closed spec fn peek_nickname_spec(&self) -> Option<Seq<u8>> {
        match self.nickname {
            Some(ref n) => Some(n@),
            None => None,
        }
    }

    /// The number of introduction points set so far (spec view).
    pub closed spec fn spec_num_intro_points(&self) -> Option<u8> {
        self.num_intro_points
    }

    /// The anonymity set so far (spec view).
    pub closed spec fn spec_anonymity(&self) -> Option<Anonymity> {
        self.anonymity
    }

    /// The rate limit set so far (spec view).
    pub closed spec fn spec_rate_limit_at_intro(&self) -> Option<Option<TokenBucketConfig>> {
        self.rate_limit_at_intro
    }

    /// The stream cap set so far (spec view).
    pub closed spec fn spec_max_concurrent_streams_per_circuit(&self) -> Option<u32> {
        self.max_concurrent_streams_per_circuit
    }

    /// Set the nickname.
    pub fn nickname(self, value: HsNickname) -> (r: Self)
        ensures
            r.peek_nickname_spec() == Some(value@),
            r.spec_num_intro_points() == self.spec_num_intro_points(),
            r.spec_anonymity() == self.spec_anonymity(),
            r.spec_rate_limit_at_intro() == self.spec_rate_limit_at_intro(),
            r.spec_max_concurrent_streams_per_circuit()
                == self.spec_max_concurrent_streams_per_circuit(),
    {
        OnionServiceConfigBuilder { nickname: Some(value), ..self }
    }

    /// Set the anonymity.
    pub fn anonymity(self, value: Anonymity) -> (r: Self)
        ensures
            r.spec_anonymity() == Some(value),
            r.peek_nickname_spec() == self.peek_nickname_spec(),
            r.spec_num_intro_points() == self.spec_num_intro_points(),
            r.spec_rate_limit_at_intro() == self.spec_rate_limit_at_intro(),
            r.spec_max_concurrent_streams_per_circuit()
                == self.spec_max_concurrent_streams_per_circuit(),
    {
        OnionServiceConfigBuilder { anonymity: Some(value), ..self }
    }

    /// Set the number of introduction points.
    pub fn num_intro_points(self, value: u8) -> (r: Self)
        ensures
            r.spec_num_intro_points() == Some(value),
            r.peek_nickname_spec() == self.peek_nickname_spec(),
            r.spec_anonymity() == self.spec_anonymity(),
            r.spec_rate_limit_at_intro() == self.spec_rate_limit_at_intro(),
            r.spec_max_concurrent_streams_per_circuit()
                == self.spec_max_concurrent_streams_per_circuit(),
    {
        OnionServiceConfigBuilder { num_intro_points: Some(value), ..self }
    }

    /// Set the introduction-request rate limit.
    pub fn rate_limit_at_intro(self, value: Option<TokenBucketConfig>) -> (r: Self)
        ensures
            r.spec_rate_limit_at_intro() == Some(value),
            r.peek_nickname_spec() == self.peek_nickname_spec(),
            r.spec_anonymity() == self.spec_anonymity(),
            r.spec_num_intro_points() == self.spec_num_intro_points(),
            r.spec_max_concurrent_streams_per_circuit()
                == self.spec_max_concurrent_streams_per_circuit(),
    {
        OnionServiceConfigBuilder { rate_limit_at_intro: Some(value), ..self }
    }

    /// Set the per-circuit stream cap.
    pub fn max_concurrent_streams_per_circuit(self, value: u32) -> (r: Self)
        ensures
            r.spec_max_concurrent_streams_per_circuit() == Some(value),
            r.peek_nickname_spec() == self.peek_nickname_spec(),
            r.spec_anonymity() == self.spec_anonymity(),
            r.spec_num_intro_points() == self.spec_num_intro_points(),
            r.spec_rate_limit_at_intro() == self.spec_rate_limit_at_intro(),
    {
        OnionServiceConfigBuilder { max_concurrent_streams_per_circuit: Some(value), ..self }
    }

    /// Return the configured nickname for this service, if it has one.
    pub fn peek_nickname(&self) -> (r: Option<&HsNickname>)
        ensures
            r matches Some(n) ==> self.peek_nickname_spec() == Some(n@),
            r is None <==> self.peek_nickname_spec() is None,
    {
        self.nickname.as_ref()
    }

    /// Build the configuration, filling unset fields with their defaults.
    ///
    /// Fails if the nickname is missing, if the number of introduction
    /// points is outside 1 to 20, or if the rate limit does not fit the
    /// wire extension.
    pub fn build(&self) -> (r: Result<OnionServiceConfig, ConfigBuildError>)
        ensures
            self.peek_nickname_spec() is None ==> r == Err::<OnionServiceConfig, ConfigBuildError>(
                ConfigBuildError::MissingField { field: "nickname" },
            ),
            ({
                let n = match self.spec_num_intro_points() {
                    Some(n) => n,
                    None => DEFAULT_NUM_INTRO_POINTS,
                };
                self.peek_nickname_spec() is Some && !(1 <= n <= MAX_INTRO_POINTS) ==> r == Err::<
                    OnionServiceConfig,
                    ConfigBuildError,
                >(
                    ConfigBuildError::Invalid {
                        field: "num_intro_points",
                        problem: "Out of range 1..20",
                    },
                )
            }),
            ({
                let n = match self.spec_num_intro_points() {
                    Some(n) => n,
                    None => DEFAULT_NUM_INTRO_POINTS,
                };
                let rl = match self.spec_rate_limit_at_intro() {
                    Some(rl) => rl,
                    None => None,
                };
                let rl_bad = rl matches Some(l) && !rate_limit_ok(l);
                &&& (self.peek_nickname_spec() is Some && 1 <= n <= MAX_INTRO_POINTS && rl_bad)
                    ==> r == Err::<OnionServiceConfig, ConfigBuildError>(
                    ConfigBuildError::Invalid {
                        field: "rate_limit_at_intro",
                        problem: "out of range",
                    },
                )
                &&& (self.peek_nickname_spec() is Some && 1 <= n <= MAX_INTRO_POINTS && !rl_bad)
                    ==> (r matches Ok(c) && Some(c.nickname@) == self.peek_nickname_spec()
                    && c.num_intro_points == n && c.rate_limit_at_intro == rl && c.anonymity == (
                    match self.spec_anonymity() {
                        Some(a) => a,
                        None => Anonymity::Anonymous,
                    }) && c.max_concurrent_streams_per_circuit == (
                    match self.spec_max_concurrent_streams_per_circuit() {
                        Some(m) => m,
                        None => DEFAULT_MAX_STREAMS_PER_CIRCUIT,
                    }))
            }),
    {
        let nickname = match &self.nickname {
            Some(n) => n.duplicate(),
            None => {
                return Err(ConfigBuildError::MissingField { field: "nickname" });
            },
        };
        let num_intro_points = match self.num_intro_points {
            Some(n) => n,
            None => DEFAULT_NUM_INTRO_POINTS,
        };
        if num_intro_points < 1 || num_intro_points > MAX_INTRO_POINTS {
            return Err(
                ConfigBuildError::Invalid {
                    field: "num_intro_points",
                    problem: "Out of range 1..20",
                },
            );
        }
        let rate_limit_at_intro = match self.rate_limit_at_intro {
            Some(rl) => rl,
            None => None,
        };
        if let Some(rl) = &rate_limit_at_intro {
            if let Err(e) = dos_params_from_token_bucket_config(rl) {
                return Err(e);
            }
        }
        let anonymity = match self.anonymity {
            Some(a) => a,
            None => Anonymity::Anonymous,
        };
        let max_concurrent_streams_per_circuit = match self.max_concurrent_streams_per_circuit {
            Some(m) => m,
            None => DEFAULT_MAX_STREAMS_PER_CIRCUIT,
        };
        Ok(
            OnionServiceConfig {
                nickname,
                anonymity,
                num_intro_points,
                rate_limit_at_intro,
                max_concurrent_streams_per_circuit,
            },
        )
    }
}

} // verus!
