//! Service configuration, read from `DATEM_*` environment variables.
use vstd::prelude::*;
use crate::text::{chars_of, str_eq};

verus! {

/// How the process runs.
#[derive(Clone, Copy, Debug, PartialEq, Eq, Structural)]
pub enum RunMode {
    Server,
    LambdaIngest,
    LambdaBilling,
}

/// The service configuration.
#[derive(Clone, Debug)]
pub struct Config {
    pub data_dir: String,
    pub s3_bucket: Option<String>,
    pub s3_region: String,
    pub s3_endpoint: Option<String>,
    pub s3_prefix: String,
    pub api_key: String,
    pub stripe_key: Option<String>,
    pub stripe_webhook_secret: Option<String>,
    pub port: u16,
    pub run_mode: RunMode,
    pub billing_cron: String,
}

/// The values of the `DATEM_*` environment variables, `None` where a variable
/// is unset.
pub struct EnvVars {
    pub data_dir: Option<String>,
    pub s3_bucket: Option<String>,
    pub s3_region: Option<String>,
    pub s3_endpoint: Option<String>,
    pub s3_prefix: Option<String>,
    pub api_key: Option<String>,
    pub stripe_key: Option<String>,
    pub stripe_webhook_secret: Option<String>,
    pub port: Option<String>,
    pub run_mode: Option<String>,
    pub billing_cron: Option<String>,
}

/// Why the configuration could not be built.
#[derive(Debug, PartialEq, Eq, Structural)]
pub enum ConfigError {
    /// `DATEM_API_KEY` is unset.
    MissingApiKey,
    /// `DATEM_PORT` is not a port number.
    InvalidPort,
}

pub open spec fn is_digit(c: char) -> bool {
    48 <= (c as u32) && (c as u32) <= 57
}

/// The value of a string of decimal digits.
pub open spec fn digits_value(d: Seq<char>) -> int
    decreases d.len(),
{
    if d.len() == 0 {
        0
    } else {
        digits_value(d.drop_last()) * 10 + ((d.last() as u32) as int - 48)
    }
}

/// Every character is an ASCII digit.
pub open spec fn all_digits(d: Seq<char>) -> bool {
    forall|i: int| 0 <= i < d.len() ==> is_digit(#[trigger] d[i])
}

/// The text after an optional leading `+`.
pub open spec fn unsigned_part(s: Seq<char>) -> Seq<char> {
    if s.len() > 0 && s[0] == '+' {
        s.drop_first()
    } else {
        s
    }
}

/// What `str::parse::<u16>` accepts: an optional `+`, then one or more ASCII
/// digits whose value is at most 65535.
pub open spec fn parse_u16_spec(s: Seq<char>) -> Option<u16> {
    let d = unsigned_part(s);
    if d.len() > 0 && all_digits(d) && digits_value(d) <= 65535 {
        Some(digits_value(d) as u16)
    } else {
        None
    }
}

proof fn lemma_digits_value_nonneg(d: Seq<char>)
    requires
        all_digits(d),
    ensures
        digits_value(d) >= 0,
    decreases d.len(),
{
    if d.len() > 0 {
        let t = d.drop_last();
        assert forall|i: int| 0 <= i < t.len() implies is_digit(#[trigger] t[i]) by {
            assert(t[i] == d[i]);
        }
        lemma_digits_value_nonneg(t);
    }
}

/// A port number written in decimal, as `str::parse::<u16>` reads it.
pub fn parse_port(s: &str) -> (r: Option<u16>)
    ensures
        r == parse_u16_spec(s@),
{
    let cs = chars_of(s);
    let start: usize = if cs.len() > 0 && cs[0] == '+' {
        1
    } else {
        0
    };
    let ghost d = unsigned_part(s@);
    assert(d =~= cs@.subrange(start as int, cs@.len() as int));
    if start >= cs.len() {
        return None;
    }
    let mut value: u32 = 0;
    let mut i: usize = start;
    while i < cs.len()
        invariant
            cs@ == s@,
            start <= i <= cs.len(),
            d =~= cs@.subrange(start as int, cs@.len() as int),
            d == unsigned_part(s@),
            value <= 65535,
            all_digits(d.take(i - start)),
            value == digits_value(d.take(i - start)),
        decreases cs.len() - i,
    {
        let c = cs[i];
        assert(d[i - start] == c);
        if (c as u32) < 48 || (c as u32) > 57 {
            assert(!is_digit(d[i - start]));
            assert(!all_digits(d));
            return None;
        }
        let ghost t = d.take(i - start + 1);
        assert(t.drop_last() =~= d.take(i - start));
        assert(t.last() == c);
        let digit: u32 = (c as u32) - 48;
        value = value * 10 + digit;
        if value > 65535 {
            proof {
                lemma_digits_value_mono(d, i - start + 1);
            }
            return None;
        }
        i = i + 1;
    }
    assert(d.take(d.len() as int) =~= d);
    Some(value as u16)
}

proof fn lemma_digits_value_mono(d: Seq<char>, k: int)
    requires
        0 <= k <= d.len(),
    ensures
        all_digits(d) ==> digits_value(d.take(k)) <= digits_value(d),
    decreases d.len() - k,
{
    if all_digits(d) {
        if k < d.len() {
            lemma_digits_value_mono(d, k + 1);
            let t = d.take(k + 1);
            assert(t.drop_last() =~= d.take(k));
            assert(all_digits(d.take(k))) by {
                assert forall|i: int| 0 <= i < d.take(k).len() implies is_digit(
                    #[trigger] d.take(k)[i],
                ) by {
                    assert(d.take(k)[i] == d[i]);
                }
            }
            lemma_digits_value_nonneg(d.take(k));
            assert(is_digit(d[k]));
        } else {
            assert(d.take(k) =~= d);
        }
    }
}

/// The run mode named by `DATEM_RUN_MODE`.
pub open spec fn run_mode_spec(v: Option<Seq<char>>) -> RunMode {
    match v {
        Some(s) => if s == "lambda-ingest"@ {
            RunMode::LambdaIngest
        } else if s == "lambda-billing"@ {
            RunMode::LambdaBilling
        } else {
            RunMode::Server
        },
        None => RunMode::Server,
    }
}

pub open spec fn opt_str_view(o: Option<String>) -> Option<Seq<char>> {
    match o {
        Some(s) => Some(s@),
        None => None,
    }
}

/// The value of a variable, or the given default when it is unset.
pub open spec fn or_default(v: Option<String>, default: Seq<char>) -> Seq<char> {
    match v {
        Some(s) => s@,
        None => default,
    }
}

fn value_or(v: &Option<String>, default: &str) -> (r: String)
    ensures
        r@ == or_default(*v, default@),
{
    match v {
        Some(s) => s.clone(),
        None => String::from_str(default),
    }
}

impl ConfigError {
    /// The error's text.
    pub fn message(&self) -> (r: String)
        ensures
            r@ == (match self {
                ConfigError::MissingApiKey => "missing required env var: DATEM_API_KEY"@,
                ConfigError::InvalidPort => "DATEM_PORT must be a valid port number"@,
            }),
    {
        match self {
            ConfigError::MissingApiKey => String::from_str("missing required env var: DATEM_API_KEY"),
            ConfigError::InvalidPort => String::from_str("DATEM_PORT must be a valid port number"),
        }
    }
}

impl Config {
    /// The configuration the variables describe. `DATEM_API_KEY` is required;
    /// `DATEM_PORT`, when set, must be a port number. Unset variables take their
    /// defaults: data directory `./data`, region `us-east-1`, prefix `datem`,
    /// port 3000, server mode and billing schedule `0 0 1 * *`.
    pub fn from_env(env: &EnvVars) -> (r: Result<Config, ConfigError>)
        ensures
            env.api_key is None ==> r == Err::<Config, ConfigError>(ConfigError::MissingApiKey),
            env.api_key is Some && (env.port matches Some(p) && parse_u16_spec(p@) is None)
                ==> r == Err::<Config, ConfigError>(ConfigError::InvalidPort),
            r is Ok <==> (env.api_key is Some && (env.port matches Some(p) ==> parse_u16_spec(
                p@,
            ) is Some)),
            r matches Ok(c) ==> {
                &&& c.data_dir@ == or_default(env.data_dir, "./data"@)
                &&& c.s3_bucket == env.s3_bucket
                &&& c.s3_region@ == or_default(env.s3_region, "us-east-1"@)
                &&& c.s3_endpoint == env.s3_endpoint
                &&& c.s3_prefix@ == or_default(env.s3_prefix, "datem"@)
                &&& c.api_key == env.api_key->0
                &&& c.stripe_key == env.stripe_key
                &&& c.stripe_webhook_secret == env.stripe_webhook_secret
                &&& c.port == (match env.port {
                    Some(p) => parse_u16_spec(p@)->0,
                    None => 3000u16,
                })
                &&& c.run_mode == run_mode_spec(opt_str_view(env.run_mode))
                &&& c.billing_cron@ == or_default(env.billing_cron, "0 0 1 * *"@)
            },
    {
        let api_key = match &env.api_key {
            Some(k) => k.clone(),
            None => return Err(ConfigError::MissingApiKey),
        };
        let port: u16 = match &env.port {
            Some(p) => match parse_port(p.as_str()) {
                Some(v) => v,
                None => return Err(ConfigError::InvalidPort),
            },
            None => 3000,
        };
        let run_mode = match &env.run_mode {
            Some(m) => if str_eq(m.as_str(), "lambda-ingest") {
                RunMode::LambdaIngest
            } else if str_eq(m.as_str(), "lambda-billing") {
                RunMode::LambdaBilling
            } else {
                RunMode::Server
            },
            None => RunMode::Server,
        };
        Ok(Config {
            data_dir: value_or(&env.data_dir, "./data"),
            s3_bucket: env.s3_bucket.clone(),
            s3_region: value_or(&env.s3_region, "us-east-1"),
            s3_endpoint: env.s3_endpoint.clone(),
            s3_prefix: value_or(&env.s3_prefix, "datem"),
            api_key,
            stripe_key: env.stripe_key.clone(),
            stripe_webhook_secret: env.stripe_webhook_secret.clone(),
            port,
            run_mode,
            billing_cron: value_or(&env.billing_cron, "0 0 1 * *"),
        })
    }
}

} // verus!
