//! Client configuration and the assembly of one notify request.
use vstd::prelude::*;
use vstd::string::StringExecFns;

use crate::notice::{notice_doc, Error, Notice, Notifier, Request, Server};

verus! {

/// A snapshot of the environment-derived inputs to configuration: the
/// recognized variables (`HONEYBADGER_ROOT`, `ENV`, `HOSTNAME`,
/// `HONEYBADGER_ENDPOINT`, `HONEYBADGER_TIMEOUT`, the last still as raw text),
/// and the computed defaults (the current working directory and the
/// OS-reported hostname).  The embedding application fills it; `empty` stands
/// in where no environment is consulted.
pub struct EnvData {
    pub root: Option<String>,
    pub env: Option<String>,
    pub hostname: Option<String>,
    pub endpoint: Option<String>,
    pub timeout: Option<String>,
    pub current_dir: Option<String>,
    pub os_hostname: Option<String>,
}

impl EnvData {
    /// A snapshot with nothing set.
    pub fn empty() -> (r: Self)
        ensures
            r.root is None,
            r.env is None,
            r.hostname is None,
            r.endpoint is None,
            r.timeout is None,
            r.current_dir is None,
            r.os_hostname is None,
    {
        EnvData {
            root: Option::None,
            env: Option::None,
            hostname: Option::None,
            endpoint: Option::None,
            timeout: Option::None,
            current_dir: Option::None,
            os_hostname: Option::None,
        }
    }
}

/// Config instance containing the resolved configuration of the client.
pub struct Config {
    pub api_key: String,
    pub root: String,
    pub env: String,
    pub hostname: String,
    pub endpoint: String,
    pub timeout: u64,
    pub threads: usize,
}

/// Configuration builder, used for building a `Config` instance by layering
/// explicit overrides over environment-derived values over computed defaults.
pub struct ConfigBuilder {
    pub api_key: String,
    pub root: Option<String>,
    pub env: Option<String>,
    pub hostname: Option<String>,
    pub endpoint: Option<String>,
    pub timeout: Option<u64>,
    pub threads: Option<usize>,
    pub env_data: EnvData,
}

/// A decimal digit.
pub open spec fn is_digit(c: char) -> bool {
    48 <= c as u32 <= 57
}

/// The value of a sequence of decimal digits, most significant first.
pub open spec fn digits_val(s: Seq<char>) -> int
    decreases s.len(),
{
    if s.len() == 0 {
        0
    } else {
        digits_val(s.drop_last()) * 10 + (s.last() as u32 - 48)
    }
}

/// Every character is a decimal digit.
pub open spec fn all_digits(s: Seq<char>) -> bool {
    forall|i: int| 0 <= i < s.len() ==> is_digit(#[trigger] s[i])
}

/// The text is a well-formed decimal rendering of a 64-bit value: non-empty,
/// digits only, within range.
pub open spec fn is_u64_digits(s: Seq<char>) -> bool {
    &&& s.len() > 0
    &&& all_digits(s)
    &&& digits_val(s) <= u64::MAX
}

proof fn lemma_digits_val_nonneg(s: Seq<char>)
    requires
        all_digits(s),
    ensures
        digits_val(s) >= 0,
    decreases s.len(),
{
    if s.len() > 0 {
        assert(all_digits(s.drop_last()));
        lemma_digits_val_nonneg(s.drop_last());
    }
}

proof fn lemma_digits_val_prefix_le(s: Seq<char>, k: int)
    requires
        all_digits(s),
        0 <= k <= s.len(),
    ensures
        digits_val(s.subrange(0, k)) <= digits_val(s),
    decreases s.len() - k,
{
    if k == s.len() {
        assert(s.subrange(0, k) =~= s);
    } else {
        lemma_digits_val_prefix_le(s, k + 1);
        let longer = s.subrange(0, k + 1);
        assert(longer.drop_last() =~= s.subrange(0, k));
        assert(all_digits(s.subrange(0, k)));
        lemma_digits_val_nonneg(s.subrange(0, k));
    }
}

/// Parse the decimal rendering of an unsigned 64-bit value.  Returns `Some`
/// exactly for a non-empty all-digit text whose value fits; anything else
/// (a sign, other characters, overflow) yields `None`.
pub fn parse_u64(s: &str) -> (r: Option<u64>)
    ensures
        r is Some <==> is_u64_digits(s@),
        r matches Some(v) ==> v == digits_val(s@),
{
    let n = s.unicode_len();
    if n == 0 {
        return Option::None;
    }
    let mut val: u64 = 0;
    let mut i: usize = 0;
    while i < n
        invariant
            n == s@.len(),
            0 < n,
            i <= n,
            all_digits(s@.subrange(0, i as int)),
            val == digits_val(s@.subrange(0, i as int)),
        decreases n - i,
    {
        let c = s.get_char(i);
        let u = c as u32;
        if u < 48 || u > 57 {
            proof {
                assert(!is_digit(s@[i as int]));
            }
            return Option::None;
        }
        let d = (u - 48) as u64;
        if val > (u64::MAX - d) / 10 {
            proof {
                let pre = s@.subrange(0, i as int + 1);
                assert(pre.drop_last() =~= s@.subrange(0, i as int));
                assert(digits_val(pre) == val * 10 + d);
                assert(val * 10 + d > u64::MAX) by (nonlinear_arith)
                    requires
                        val > (u64::MAX - d) / 10,
                        d <= 9,
                ;
                if all_digits(s@) {
                    assert(forall|j: int|
                        0 <= j < pre.len() ==> is_digit(#[trigger] pre[j]));
                    lemma_digits_val_prefix_le(s@, i as int + 1);
                }
            }
            return Option::None;
        }
        proof {
            assert(val * 10 + d <= u64::MAX) by (nonlinear_arith)
                requires
                    val <= (u64::MAX - d) / 10,
                    d <= 9,
            ;
        }
        val = val * 10 + d;
        i = i + 1;
        proof {
            let pre = s@.subrange(0, i as int);
            assert(pre.drop_last() =~= s@.subrange(0, i as int - 1));
            assert(all_digits(pre));
        }
    }
    proof {
        assert(s@.subrange(0, n as int) =~= s@);
    }
    Option::Some(val)
}

/// Layered resolution of one textual setting: the explicit override if set,
/// else the environment-derived value, else the computed default, else empty.
pub open spec fn first_some(
    explicit: Option<String>,
    environment: Option<String>,
    computed: Option<String>,
) -> Seq<char> {
    match explicit {
        Option::Some(x) => x@,
        Option::None => match environment {
            Option::Some(y) => y@,
            Option::None => match computed {
                Option::Some(z) => z@,
                Option::None => Seq::empty(),
            },
        },
    }
}

/// The endpoint: the explicit override if set, else the environment-derived
/// value, else the hard-coded default.
pub open spec fn resolve_endpoint(explicit: Option<String>, environment: Option<String>) -> Seq<
    char,
> {
    match explicit {
        Option::Some(x) => x@,
        Option::None => match environment {
            Option::Some(y) => y@,
            Option::None => "https://api.honeybadger.io/v1/notices"@,
        },
    }
}

/// The timeout in seconds: the explicit override if set, else the value
/// parsed from the environment, else 5.
pub open spec fn resolve_timeout(explicit: Option<u64>, environment: Option<u64>) -> u64 {
    match explicit {
        Option::Some(t) => t,
        Option::None => match environment {
            Option::Some(t) => t,
            Option::None => 5,
        },
    }
}

/// The timeout the environment supplies: its raw text parsed as an unsigned
/// number of seconds, with one leading plus sign accepted; malformed text is
/// silently ignored.
pub open spec fn spec_env_timeout(raw: Option<String>) -> Option<u64> {
    match raw {
        Option::Some(s) => {
            let digits = if s@.len() > 0 && s@[0] == '+' {
                s@.subrange(1, s@.len() as int)
            } else {
                s@
            };
            if is_u64_digits(digits) {
                Option::Some(digits_val(digits) as u64)
            } else {
                Option::None
            }
        },
        Option::None => Option::None,
    }
}

/// The number of transport threads: the explicit override if set, else 4.
pub open spec fn resolve_threads(explicit: Option<usize>) -> usize {
    match explicit {
        Option::Some(t) => t,
        Option::None => 4,
    }
}

impl ConfigBuilder {
    /// Construct a `ConfigBuilder` to parametrize the client, over a snapshot
    /// of the environment-derived inputs.  Nothing is overridden explicitly
    /// yet: each setting resolves to its environment-derived value or its
    /// default until the corresponding `with_` method is called.
    pub fn new(api_token: &str, environment: EnvData) -> (r: Self)
        ensures
            r.api_key@ == api_token@,
            r.root is None,
            r.env is None,
            r.hostname is None,
            r.endpoint is None,
            r.timeout is None,
            r.threads is None,
            r.env_data == environment,
    {
        ConfigBuilder {
            api_key: api_token.to_owned(),
            root: Option::None,
            env: Option::None,
            hostname: Option::None,
            endpoint: Option::None,
            timeout: Option::None,
            threads: Option::None,
            env_data: environment,
        }
    }

    /// Override the project root property for events posted to the API.
    /// Consumes the builder and returns a new value.
    pub fn with_root(self, project_root: &str) -> (r: Self)
        ensures
            r.root matches Some(s) && s@ == project_root@,
            r.api_key == self.api_key,
            r.env == self.env,
            r.hostname == self.hostname,
            r.endpoint == self.endpoint,
            r.timeout == self.timeout,
            r.threads == self.threads,
            r.env_data == self.env_data,
    {
        ConfigBuilder { root: Option::Some(project_root.to_owned()), ..self }
    }

    /// Add an environment name property for events posted to the API.
    /// Consumes the builder and returns a new value.
    pub fn with_env(self, environment: &str) -> (r: Self)
        ensures
            r.env matches Some(s) && s@ == environment@,
            r.api_key == self.api_key,
            r.root == self.root,
            r.hostname == self.hostname,
            r.endpoint == self.endpoint,
            r.timeout == self.timeout,
            r.threads == self.threads,
            r.env_data == self.env_data,
    {
        ConfigBuilder { env: Option::Some(environment.to_owned()), ..self }
    }

    /// Override the hostname property for events posted to the API.
    /// Consumes the builder and returns a new value.
    pub fn with_hostname(self, hostname: &str) -> (r: Self)
        ensures
            r.hostname matches Some(s) && s@ == hostname@,
            r.api_key == self.api_key,
            r.root == self.root,
            r.env == self.env,
            r.endpoint == self.endpoint,
            r.timeout == self.timeout,
            r.threads == self.threads,
            r.env_data == self.env_data,
    {
        ConfigBuilder { hostname: Option::Some(hostname.to_owned()), ..self }
    }

    /// Override the endpoint used to post the notices.  Consumes the builder
    /// and returns a new value.
    pub fn with_endpoint(self, endpoint: &str) -> (r: Self)
        ensures
            r.endpoint matches Some(s) && s@ == endpoint@,
            r.api_key == self.api_key,
            r.root == self.root,
            r.env == self.env,
            r.hostname == self.hostname,
            r.timeout == self.timeout,
            r.threads == self.threads,
            r.env_data == self.env_data,
    {
        ConfigBuilder { endpoint: Option::Some(endpoint.to_owned()), ..self }
    }

    /// Override the write timeout, in seconds, for the client used to post
    /// the notices.  Consumes the builder and returns a new value.
    pub fn with_timeout(self, timeout: u64) -> (r: Self)
        ensures
            r.timeout == Some(timeout),
            r.api_key == self.api_key,
            r.root == self.root,
            r.env == self.env,
            r.hostname == self.hostname,
            r.endpoint == self.endpoint,
            r.threads == self.threads,
            r.env_data == self.env_data,
    {
        ConfigBuilder { timeout: Option::Some(timeout), ..self }
    }

    /// Override the number of threads the transport should use to queue
    /// payloads.  Consumes the builder and returns a new value.
    pub fn with_threads(self, threads: usize) -> (r: Self)
        ensures
            r.threads == Some(threads),
            r.api_key == self.api_key,
            r.root == self.root,
            r.env == self.env,
            r.hostname == self.hostname,
            r.endpoint == self.endpoint,
            r.timeout == self.timeout,
            r.env_data == self.env_data,
    {
        ConfigBuilder { threads: Option::Some(threads), ..self }
    }

    /// Resolve the builder into a `Config`, layering each explicit override
    /// over the environment-derived value over the computed default:
    ///
    ///   - root: the current working directory when nothing else is set;
    ///   - environment name: empty when nothing is set;
    ///   - hostname: the OS-reported hostname when nothing else is set;
    ///   - endpoint: `https://api.honeybadger.io/v1/notices` by default;
    ///   - timeout: 5 seconds by default;
    ///   - threads: 4 by default.
    pub fn build(self) -> (c: Config)
        ensures
            c.api_key == self.api_key,
            c.root@ == first_some(self.root, self.env_data.root, self.env_data.current_dir),
            c.env@ == first_some(self.env, self.env_data.env, Option::None),
            c.hostname@ == first_some(
                self.hostname,
                self.env_data.hostname,
                self.env_data.os_hostname,
            ),
            c.endpoint@ == resolve_endpoint(self.endpoint, self.env_data.endpoint),
            c.timeout == resolve_timeout(self.timeout, spec_env_timeout(self.env_data.timeout)),
            c.threads == resolve_threads(self.threads),
    {
        let timeout = match self.timeout {
            Option::Some(t) => t,
            Option::None => match &self.env_data.timeout {
                Option::Some(raw) => {
                    let s = raw.as_str();
                    let n = s.unicode_len();
                    let digits = if n > 0 && s.get_char(0) == '+' {
                        s.substring_char(1, n)
                    } else {
                        s
                    };
                    match parse_u64(digits) {
                        Option::Some(v) => v,
                        Option::None => 5,
                    }
                },
                Option::None => 5,
            },
        };
        Config {
            api_key: self.api_key,
            root: first_of3(self.root, self.env_data.root, self.env_data.current_dir),
            env: first_of3(self.env, self.env_data.env, Option::None),
            hostname: first_of3(self.hostname, self.env_data.hostname, self.env_data.os_hostname),
            endpoint: match self.endpoint {
                Option::Some(e) => e,
                Option::None => match self.env_data.endpoint {
                    Option::Some(e) => e,
                    Option::None => "https://api.honeybadger.io/v1/notices".to_owned(),
                },
            },
            timeout,
            threads: match self.threads {
                Option::Some(t) => t,
                Option::None => 4,
            },
        }
    }
}

/// Take the first set value of a layered setting, or empty.
fn first_of3(explicit: Option<String>, environment: Option<String>, computed: Option<String>) -> (r:
    String)
    ensures
        r@ == first_some(explicit, environment, computed),
{
    match explicit {
        Option::Some(x) => x,
        Option::None => match environment {
            Option::Some(y) => y,
            Option::None => match computed {
                Option::Some(z) => z,
                Option::None => String::new(),
            },
        },
    }
}

/// Law: configuration precedence for the timeout.  An explicit override wins
/// over the environment; the environment wins over the default of 5 seconds.
pub proof fn lemma_timeout_precedence(environment: Option<u64>, explicit: u64)
    ensures
        resolve_timeout(Option::Some(explicit), environment) == explicit,
        environment matches Some(v) ==> resolve_timeout(Option::None, environment) == v,
        environment is None ==> resolve_timeout(Option::None, environment) == 5,
{
}

/// Law: configuration precedence for a textual setting.  An explicit override
/// wins over the environment, the environment over the computed default, and
/// the empty string stands only when all are absent.
pub proof fn lemma_setting_precedence(
    explicit: String,
    environment: Option<String>,
    computed: Option<String>,
)
    ensures
        first_some(Option::Some(explicit), environment, computed) == explicit@,
        environment matches Some(v) ==> first_some(Option::None, environment, computed) == v@,
        computed matches Some(d) ==> (environment is None ==> first_some(
            Option::None,
            environment,
            computed,
        ) == d@),
        (environment is None && computed is None) ==> first_some(
            Option::None,
            environment,
            computed,
        ) == Seq::<char>::empty(),
{
}

/// The user agent string identifying this client: its version, then the OS
/// type and OS version of the host.
pub fn user_agent(version: &str, os_type: &str, os_version: &str) -> (r: String)
    ensures
        r@ == "HB-rust "@ + version@ + "; "@ + os_type@ + "/"@ + os_version@,
{
    let mut s = String::new();
    s.append("HB-rust ");
    s.append(version);
    s.append("; ");
    s.append(os_type);
    s.append("/");
    s.append(os_version);
    proof {
        assert(s@ =~= "HB-rust "@ + version@ + "; "@ + os_type@ + "/"@ + os_version@);
    }
    s
}

/// An HTTP POST request to the exceptions API, as plain values: the target
/// URI, the three headers the wire contract fixes, and the serialized body.
pub struct HttpRequest {
    pub method: String,
    pub uri: String,
    pub accept: String,
    pub api_key: String,
    pub user_agent: String,
    pub body: Vec<u8>,
}

/// Assemble and serialize the notice for one reported error: the error
/// record, the caller's context and the environment snapshot, host metadata
/// from the configuration, and the wall-clock time (seconds since the epoch)
/// and process id stamped by the caller.
pub fn serialize(
    config: &Config,
    error: Error,
    context: Option<Vec<(String, String)>>,
    cgi_data: Vec<(String, String)>,
    time: u64,
    pid: u32,
) -> (r: Vec<u8>)
    ensures
        r@ == notice_doc(
            config.api_key@,
            "honeybadger"@,
            "https://github.com/fussybeaver/honeybader-rs"@,
            "0.1.3"@,
            error,
            context,
            cgi_data@,
            config.root@,
            config.env@,
            config.hostname@,
            time,
            pid,
        ),
{
    let notifier = Notifier {
        name: "honeybadger".to_owned(),
        url: "https://github.com/fussybeaver/honeybader-rs".to_owned(),
        version: "0.1.3".to_owned(),
    };
    let request = Request { context, cgi_data };
    let server = Server {
        project_root: config.root.clone(),
        environment_name: config.env.clone(),
        hostname: config.hostname.clone(),
        time,
        pid,
    };
    let notice = Notice { api_key: config.api_key.clone(), notifier, error, request, server };
    notice.to_json()
}

/// Build the complete request for one notice: method POST, the configured
/// endpoint as the target, the `Accept`, `X-API-Key` and `User-Agent` headers,
/// and the serialized notice as the body.
pub fn create_payload_with_config(
    config: &Config,
    user_agent: &str,
    error: Error,
    context: Option<Vec<(String, String)>>,
    cgi_data: Vec<(String, String)>,
    time: u64,
    pid: u32,
) -> (r: HttpRequest)
    ensures
        r.method@ == "POST"@,
        r.uri@ == config.endpoint@,
        r.accept@ == "application/json"@,
        r.api_key@ == config.api_key@,
        r.user_agent@ == user_agent@,
        r.body@ == notice_doc(
            config.api_key@,
            "honeybadger"@,
            "https://github.com/fussybeaver/honeybader-rs"@,
            "0.1.3"@,
            error,
            context,
            cgi_data@,
            config.root@,
            config.env@,
            config.hostname@,
            time,
            pid,
        ),
{
    let body = serialize(config, error, context, cgi_data, time, pid);
    HttpRequest {
        method: "POST".to_owned(),
        uri: config.endpoint.clone(),
        accept: "application/json".to_owned(),
        api_key: config.api_key.clone(),
        user_agent: user_agent.to_owned(),
        body,
    }
}

/// Law: notifying is idempotent with respect to the client's state.  The
/// request built for a notice is a function of the error, configuration,
/// context and stamps alone, so two calls on the same inputs build the same
/// body, and neither delivery's outcome depends on the other.
pub proof fn lemma_notify_idempotent(
    r1: HttpRequest,
    r2: HttpRequest,
    api_key: Seq<char>,
    error: Error,
    context: Option<Vec<(String, String)>>,
    cgi_data: Seq<(String, String)>,
    root: Seq<char>,
    env: Seq<char>,
    hostname: Seq<char>,
    time: u64,
    pid: u32,
)
    requires
        r1.body@ == notice_doc(
            api_key,
            "honeybadger"@,
            "https://github.com/fussybeaver/honeybader-rs"@,
            "0.1.3"@,
            error,
            context,
            cgi_data,
            root,
            env,
            hostname,
            time,
            pid,
        ),
        r2.body@ == notice_doc(
            api_key,
            "honeybadger"@,
            "https://github.com/fussybeaver/honeybader-rs"@,
            "0.1.3"@,
            error,
            context,
            cgi_data,
            root,
            env,
            hostname,
            time,
            pid,
        ),
    ensures
        r1.body@ == r2.body@,
{
}

} // verus!
