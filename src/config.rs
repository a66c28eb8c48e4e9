use vstd::prelude::*;
use crate::adapters::{trim, trim_of};

verus! {

/// What `str::to_lowercase` yields for a text: it depends on the text alone.
pub uninterp spec fn lower_of(s: Seq<char>) -> Seq<char>;

/// Relies on `str::to_lowercase`: the result depends on the characters alone.
#[verifier::external_body]
fn lowercase(s: &str) -> (r: String)
    ensures
        r@ == lower_of(s@),
{
    s.to_lowercase()
}

/// Settings of the relay, read from environment variables whose names match
/// the field names in any case (`DATABASE_URL`, ...). How names, switches and
/// counts are read is this library's own rule (see `configure`), modelled on
/// the conventions of the `config` crate; it does not call that crate.
#[derive(Clone, Debug, PartialEq, Eq)]
pub struct Config {
    pub database_url: String,
    pub db_max_connections: u32,
    pub auth0_domain: String,
    pub auth0_audience: String,
    pub auth0_issuer: String,
    pub auth_bypass: bool,
    pub allowed_origins: String,
    pub openai_api_url: String,
    pub openai_api_key: Option<String>,
    pub openai_model: String,
    pub github_token: Option<String>,
    pub feedback_repo: Option<String>,
}

/// Why the settings were refused.
#[derive(Clone, Debug, PartialEq, Eq)]
pub enum ConfigError {
    /// A required setting is absent; it holds the setting's name.
    Missing(String),
    /// A setting cannot be read as its type; it holds the setting's name.
    Invalid(String),
    Message(String),
}

pub struct SpecConfig {
    pub database_url: Seq<char>,
    pub db_max_connections: u32,
    pub auth0_domain: Seq<char>,
    pub auth0_audience: Seq<char>,
    pub auth0_issuer: Seq<char>,
    pub auth_bypass: bool,
    pub allowed_origins: Seq<char>,
    pub openai_api_url: Seq<char>,
    pub openai_api_key: Option<Seq<char>>,
    pub openai_model: Seq<char>,
    pub github_token: Option<Seq<char>>,
    pub feedback_repo: Option<Seq<char>>,
}

pub enum SpecConfigError {
    Missing(Seq<char>),
    Invalid(Seq<char>),
    Message(Seq<char>),
}

pub open spec fn opt_string(o: Option<String>) -> Option<Seq<char>> {
    match o {
        Some(s) => Some(s@),
        None => None,
    }
}

impl View for Config {
    type V = SpecConfig;

    open spec fn view(&self) -> SpecConfig {
        SpecConfig {
            database_url: self.database_url@,
            db_max_connections: self.db_max_connections,
            auth0_domain: self.auth0_domain@,
            auth0_audience: self.auth0_audience@,
            auth0_issuer: self.auth0_issuer@,
            auth_bypass: self.auth_bypass,
            allowed_origins: self.allowed_origins@,
            openai_api_url: self.openai_api_url@,
            openai_api_key: opt_string(self.openai_api_key),
            openai_model: self.openai_model@,
            github_token: opt_string(self.github_token),
            feedback_repo: opt_string(self.feedback_repo),
        }
    }
}

impl View for ConfigError {
    type V = SpecConfigError;

    open spec fn view(&self) -> SpecConfigError {
        match self {
            ConfigError::Missing(s) => SpecConfigError::Missing(s@),
            ConfigError::Invalid(s) => SpecConfigError::Invalid(s@),
            ConfigError::Message(s) => SpecConfigError::Message(s@),
        }
    }
}

pub open spec fn vars_view(vars: Seq<(String, String)>) -> Seq<(Seq<char>, Seq<char>)> {
    vars.map_values(|p: (String, String)| (p.0@, p.1@))
}

/// The value of setting `name`: the last variable whose lower-cased name is `name`.
pub open spec fn setting(vars: Seq<(Seq<char>, Seq<char>)>, name: Seq<char>) -> Option<Seq<char>>
    decreases vars.len(),
{
    if vars.len() == 0 {
        None
    } else if lower_of(vars.last().0) == name {
        Some(vars.last().1)
    } else {
        setting(vars.drop_last(), name)
    }
}

/// A switch, by this library's rule: `1`, `true`, `on`, `yes` or `0`,
/// `false`, `off`, `no`, in any case.
pub open spec fn parse_switch(v: Seq<char>) -> Option<bool> {
    let l = lower_of(v);
    if l == "1"@ || l == "true"@ || l == "on"@ || l == "yes"@ {
        Some(true)
    } else if l == "0"@ || l == "false"@ || l == "off"@ || l == "no"@ {
        Some(false)
    } else {
        None
    }
}

pub open spec fn is_digit(c: char) -> bool {
    '0' <= c <= '9'
}

pub open spec fn digits_value(s: Seq<char>) -> int
    decreases s.len(),
{
    if s.len() == 0 {
        0
    } else {
        10 * digits_value(s.drop_last()) + (s.last() as u32 - '0' as u32)
    }
}

/// The digits of a count, after an optional `+`.
pub open spec fn count_digits(v: Seq<char>) -> Seq<char> {
    if v.len() > 0 && v[0] == '+' {
        v.drop_first()
    } else {
        v
    }
}

/// A count, by this library's rule: decimal digits, optionally after `+`, of
/// a value that fits in `u32`.
pub open spec fn parse_count(v: Seq<char>) -> Option<u32> {
    let d = count_digits(v);
    if d.len() > 0 && (forall|i: int| 0 <= i < d.len() ==> is_digit(#[trigger] d[i]))
        && digits_value(d) <= u32::MAX {
        Some(digits_value(d) as u32)
    } else {
        None
    }
}

pub open spec fn text_or(o: Option<Seq<char>>, default: Seq<char>) -> Seq<char> {
    match o {
        Some(v) => v,
        None => default,
    }
}

pub open spec fn default_domain() -> Seq<char> {
    "dev.local"@
}

pub open spec fn default_audience() -> Seq<char> {
    "https://babelbye.local"@
}

pub open spec fn default_issuer() -> Seq<char> {
    "https://dev.local/"@
}

pub open spec fn auth0_unset_message() -> Seq<char> {
    "Auth0 settings must be provided when AUTH_BYPASS=false"@
}

/// The settings that `vars` describe. `database_url` is required; the count
/// defaults to 5, the switch to off, the origins to `*`; the identity settings
/// default to development values, which are refused unless the bypass is on.
pub open spec fn configure(vars: Seq<(Seq<char>, Seq<char>)>) -> Result<SpecConfig, SpecConfigError> {
    let url = setting(vars, "database_url"@);
    let count = setting(vars, "db_max_connections"@);
    let bypass = setting(vars, "auth_bypass"@);
    if url is None {
        Err(SpecConfigError::Missing("database_url"@))
    } else if count is Some && parse_count(count->0) is None {
        Err(SpecConfigError::Invalid("db_max_connections"@))
    } else if bypass is Some && parse_switch(bypass->0) is None {
        Err(SpecConfigError::Invalid("auth_bypass"@))
    } else {
        let c = SpecConfig {
            database_url: url->0,
            db_max_connections: if count is Some { parse_count(count->0)->0 } else { 5 },
            auth0_domain: text_or(setting(vars, "auth0_domain"@), default_domain()),
            auth0_audience: text_or(setting(vars, "auth0_audience"@), default_audience()),
            auth0_issuer: text_or(setting(vars, "auth0_issuer"@), default_issuer()),
            auth_bypass: bypass is Some && parse_switch(bypass->0) == Some(true),
            allowed_origins: text_or(setting(vars, "allowed_origins"@), "*"@),
            openai_api_url: text_or(setting(vars, "openai_api_url"@), "https://api.openai.com/v1"@),
            openai_api_key: setting(vars, "openai_api_key"@),
            openai_model: text_or(setting(vars, "openai_model"@), "gpt-5.2"@),
            github_token: setting(vars, "github_token"@),
            feedback_repo: setting(vars, "feedback_repo"@),
        };
        if !c.auth_bypass && (c.auth0_domain == default_domain() || c.auth0_audience
            == default_audience() || c.auth0_issuer == default_issuer()) {
            Err(SpecConfigError::Message(auth0_unset_message()))
        } else {
            Ok(c)
        }
    }
}

proof fn lemma_setting_prefix(v: Seq<(Seq<char>, Seq<char>)>, i: int, name: Seq<char>)
    requires
        0 < i <= v.len(),
        lower_of(v[i - 1].0) != name,
    ensures
        setting(v.subrange(0, i), name) == setting(v.subrange(0, i - 1), name),
{
    assert(v.subrange(0, i).drop_last() =~= v.subrange(0, i - 1));
}

/// The value of setting `name` in `vars` (see `setting`).
fn lookup(vars: &Vec<(String, String)>, name: &str) -> (r: Option<String>)
    ensures
        opt_string(r) == setting(vars_view(vars@), name@),
{
    let ghost v = vars_view(vars@);
    let wanted = String::from_str(name);
    let mut i: usize = vars.len();
    assert(v.subrange(0, i as int) =~= v);
    while i > 0
        invariant
            i <= vars@.len(),
            v == vars_view(vars@),
            wanted@ == name@,
            setting(v, name@) == setting(v.subrange(0, i as int), name@),
        decreases i,
    {
        let key = lowercase(vars[i - 1].0.as_str());
        if key == wanted {
            assert(v.subrange(0, i as int).last() == v[i - 1]);
            return Some(vars[i - 1].1.clone());
        }
        proof {
            lemma_setting_prefix(v, i as int, name@);
        }
        i = i - 1;
    }
    None
}

fn parse_switch_value(v: &str) -> (r: Option<bool>)
    ensures
        r == parse_switch(v@),
{
    let l = lowercase(v);
    let l = l.as_str();
    if str_eq(l, "1") || str_eq(l, "true") || str_eq(l, "on") || str_eq(l, "yes") {
        Some(true)
    } else if str_eq(l, "0") || str_eq(l, "false") || str_eq(l, "off") || str_eq(l, "no") {
        Some(false)
    } else {
        None
    }
}

fn str_eq(a: &str, b: &str) -> (r: bool)
    ensures
        r == (a@ == b@),
{
    String::from_str(a) == String::from_str(b)
}

proof fn lemma_digits_grow(s: Seq<char>, j: int)
    requires
        0 <= j <= s.len(),
        forall|i: int| 0 <= i < s.len() ==> is_digit(#[trigger] s[i]),
    ensures
        digits_value(s.subrange(0, j)) <= digits_value(s),
        digits_value(s) >= 0,
    decreases s.len(),
{
    if s.len() > 0 {
        let p = s.drop_last();
        assert forall|i: int| 0 <= i < p.len() implies is_digit(#[trigger] p[i]) by {
            assert(p[i] == s[i]);
        }
        if j == s.len() {
            assert(s.subrange(0, j) =~= s);
            lemma_digits_grow(p, 0);
        } else {
            assert(p.subrange(0, j) =~= s.subrange(0, j));
            lemma_digits_grow(p, j);
        }
    } else {
        assert(s.subrange(0, j) =~= s);
    }
}

fn parse_count_value(v: &str) -> (r: Option<u32>)
    ensures
        r == parse_count(v@),
{
    let n = v.unicode_len();
    let mut i: usize = 0;
    if n > 0 && v.get_char(0) == '+' {
        i = 1;
    }
    let start = i;
    let ghost d = count_digits(v@);
    assert(d =~= v@.subrange(start as int, n as int));
    if start == n {
        return None;
    }
    let mut acc: u64 = 0;
    while i < n
        invariant
            start <= i <= n == v@.len(),
            d == v@.subrange(start as int, n as int),
            d == count_digits(v@),
            acc == digits_value(d.subrange(0, i - start)),
            acc <= u32::MAX,
            forall|k: int| 0 <= k < i - start ==> is_digit(#[trigger] d[k]),
        decreases n - i,
    {
        let c = v.get_char(i);
        assert(d[i - start] == c);
        if !('0' <= c && c <= '9') {
            assert(!is_digit(d[i - start]));
            return None;
        }
        assert(d.subrange(0, i - start + 1).drop_last() =~= d.subrange(0, i - start));
        assert(d.subrange(0, i - start + 1).last() == c);
        acc = acc * 10 + (c as u64 - '0' as u64);
        i = i + 1;
        assert(acc == digits_value(d.subrange(0, i - start)));
        if acc > 4294967295 {
            proof {
                lemma_digits_grow_prefix_digits(d, (i - start) as int);
            }
            return None;
        }
    }
    assert(d.subrange(0, n - start) =~= d);
    Some(acc as u32)
}

proof fn lemma_digits_grow_prefix_digits(d: Seq<char>, j: int)
    requires
        0 <= j <= d.len(),
        forall|k: int| 0 <= k < j ==> is_digit(#[trigger] d[k]),
    ensures
        (forall|k: int| 0 <= k < d.len() ==> is_digit(#[trigger] d[k])) ==> digits_value(
            d.subrange(0, j),
        ) <= digits_value(d),
{
    if forall|k: int| 0 <= k < d.len() ==> is_digit(#[trigger] d[k]) {
        lemma_digits_grow(d, j);
    }
}

fn text_or_default(o: Option<String>, default: &str) -> (r: String)
    ensures
        r@ == text_or(opt_string(o), default@),
{
    match o {
        Some(v) => v,
        None => String::from_str(default),
    }
}

impl Config {
    /// Reads the settings from environment variables, given as name and value
    /// pairs in the order the environment lists them (see `configure`).
    pub fn from_env(vars: &Vec<(String, String)>) -> (r: Result<Config, ConfigError>)
        ensures
            match r {
                Ok(c) => configure(vars_view(vars@)) == Ok::<SpecConfig, SpecConfigError>(c@),
                Err(e) => configure(vars_view(vars@)) == Err::<SpecConfig, SpecConfigError>(e@),
            },
    {
        let database_url = match lookup(vars, "database_url") {
            Some(v) => v,
            None => return Err(ConfigError::Missing(String::from_str("database_url"))),
        };
        let db_max_connections = match lookup(vars, "db_max_connections") {
            Some(v) => match parse_count_value(v.as_str()) {
                Some(n) => n,
                None => return Err(ConfigError::Invalid(String::from_str("db_max_connections"))),
            },
            None => 5,
        };
        let auth_bypass = match lookup(vars, "auth_bypass") {
            Some(v) => match parse_switch_value(v.as_str()) {
                Some(b) => b,
                None => return Err(ConfigError::Invalid(String::from_str("auth_bypass"))),
            },
            None => false,
        };
        let default_domain = "dev.local";
        let default_audience = "https://babelbye.local";
        let default_issuer = "https://dev.local/";
        let auth0_domain = text_or_default(lookup(vars, "auth0_domain"), default_domain);
        let auth0_audience = text_or_default(lookup(vars, "auth0_audience"), default_audience);
        let auth0_issuer = text_or_default(lookup(vars, "auth0_issuer"), default_issuer);
        if !auth_bypass && (str_eq(auth0_domain.as_str(), default_domain) || str_eq(
            auth0_audience.as_str(),
            default_audience,
        ) || str_eq(auth0_issuer.as_str(), default_issuer)) {
            return Err(
                ConfigError::Message(
                    String::from_str("Auth0 settings must be provided when AUTH_BYPASS=false"),
                ),
            );
        }
        let config = Config {
            database_url,
            db_max_connections,
            auth0_domain,
            auth0_audience,
            auth0_issuer,
            auth_bypass,
            allowed_origins: text_or_default(lookup(vars, "allowed_origins"), "*"),
            openai_api_url: text_or_default(
                lookup(vars, "openai_api_url"),
                "https://api.openai.com/v1",
            ),
            openai_api_key: lookup(vars, "openai_api_key"),
            openai_model: text_or_default(lookup(vars, "openai_model"), "gpt-5.2"),
            github_token: lookup(vars, "github_token"),
            feedback_repo: lookup(vars, "feedback_repo"),
        };
        Ok(config)
    }
}

/// Index of the first comma in `s`, or -1.
pub open spec fn first_comma(s: Seq<char>) -> int
    decreases s.len(),
{
    if s.len() == 0 {
        -1
    } else if s[0] == ',' {
        0
    } else if first_comma(s.drop_first()) < 0 {
        -1
    } else {
        first_comma(s.drop_first()) + 1
    }
}

proof fn lemma_first_comma(s: Seq<char>, k: int)
    requires
        0 <= k <= s.len(),
        forall|j: int| 0 <= j < k ==> s[j] != ',',
    ensures
        k < s.len() && s[k] == ',' ==> first_comma(s) == k,
        k == s.len() ==> first_comma(s) == -1,
        -1 <= first_comma(s) < s.len(),
    decreases s.len(),
{
    if s.len() > 0 && k > 0 {
        lemma_first_comma(s.drop_first(), k - 1);
    } else if s.len() > 0 {
        lemma_first_comma(s.drop_first(), 0);
    }
}

/// The pieces of `s` between commas, in order.
pub open spec fn comma_pieces(s: Seq<char>) -> Seq<Seq<char>>
    decreases s.len(),
{
    let i = first_comma(s);
    if i < 0 || i >= s.len() {
        seq![s]
    } else {
        seq![s.subrange(0, i)] + comma_pieces(s.subrange(i + 1, s.len() as int))
    }
}

/// The origins allowed to call the HTTP API: none listed for `*` (any origin
/// is allowed), else the comma-separated entries, each trimmed.
pub open spec fn origin_list(allowed: Seq<char>) -> Option<Seq<Seq<char>>> {
    if allowed == "*"@ {
        None
    } else {
        Some(comma_pieces(allowed).map_values(|p: Seq<char>| trim_of(p)))
    }
}

impl Config {
    /// The origins allowed to call the HTTP API (see `origin_list`).
    pub fn allowed_origin_list(&self) -> (r: Option<Vec<String>>)
        ensures
            match r {
                Some(v) => origin_list(self.allowed_origins@) == Some(
                    v@.map_values(|p: String| p@),
                ),
                None => origin_list(self.allowed_origins@) is None,
            },
    {
        let s = self.allowed_origins.as_str();
        if str_eq(s, "*") {
            return None;
        }
        let n = s.unicode_len();
        let ghost full = s@;
        let mut out: Vec<String> = Vec::new();
        let mut start: usize = 0;
        let mut i: usize = 0;
        assert(full.subrange(0, n as int) =~= full);
        while i < n
            invariant
                start <= i <= n == full.len(),
                full == s@,
                forall|j: int| start <= j < i ==> full[j] != ',',
                comma_pieces(full).map_values(|p: Seq<char>| trim_of(p)) == out@.map_values(
                    |p: String| p@,
                ) + comma_pieces(full.subrange(start as int, n as int)).map_values(
                    |p: Seq<char>| trim_of(p),
                ),
            decreases n - i,
        {
            if s.get_char(i) == ',' {
                let ghost rest = full.subrange(start as int, n as int);
                proof {
                    assert forall|j: int| 0 <= j < i - start implies rest[j] != ',' by {
                        assert(rest[j] == full[start + j]);
                    }
                    lemma_first_comma(rest, i - start);
                    assert(rest.subrange(0, i - start) =~= full.subrange(start as int, i as int));
                    assert(rest.subrange(i - start + 1, rest.len() as int) =~= full.subrange(
                        i + 1,
                        n as int,
                    ));
                }
                let piece = trim(s.substring_char(start, i));
                let ghost before = out@.map_values(|p: String| p@);
                out.push(piece);
                proof {
                    assert(out@.map_values(|p: String| p@) =~= before.push(piece@));
                    let tail = comma_pieces(full.subrange(i + 1, n as int));
                    assert(comma_pieces(rest) == seq![full.subrange(start as int, i as int)] + tail);
                    assert(comma_pieces(rest).map_values(|p: Seq<char>| trim_of(p)) =~= seq![
                        piece@,
                    ] + tail.map_values(|p: Seq<char>| trim_of(p)));
                    assert(before + comma_pieces(rest).map_values(|p: Seq<char>| trim_of(p))
                        =~= before.push(piece@) + tail.map_values(|p: Seq<char>| trim_of(p)));
                }
                start = i + 1;
            }
            i = i + 1;
        }
        let ghost rest = full.subrange(start as int, n as int);
        proof {
            assert forall|j: int| 0 <= j < rest.len() implies rest[j] != ',' by {
                assert(rest[j] == full[start + j]);
            }
            lemma_first_comma(rest, rest.len() as int);
        }
        let piece = trim(s.substring_char(start, n));
        let ghost before = out@.map_values(|p: String| p@);
        out.push(piece);
        proof {
            assert(out@.map_values(|p: String| p@) =~= before.push(piece@));
            assert(comma_pieces(rest).map_values(|p: Seq<char>| trim_of(p)) =~= seq![piece@]);
            assert(before + seq![piece@] =~= before.push(piece@));
        }
        Some(out)
    }
}

} // verus!
