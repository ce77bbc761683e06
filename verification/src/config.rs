//! Runtime configuration, from environment variables only. Everything about the
//! chain is optional: without it the read API is served, and the indexer and the
//! keeper stay idle.

use vstd::prelude::*;
use vstd::string::*;

use crate::text::{
    all_digits, decimal, digits_value, is_digit, law_decimal_has_no_leading_zero,
    law_decimal_reads_back, law_numbers_are_digits,
    law_white_space_trims_to_nothing, list_entries, parse_list, parse_unsigned, trim, trimmed,
    unsigned, unsigned_body, view_all, view_opt, white_space,
};

verus! {

/// The variables as they are set; a variable that is not set, or not text, is
/// absent.
#[derive(Debug, PartialEq, Eq)]
pub struct Vars {
    pub port: Option<String>,
    pub database_url: Option<String>,
    pub sui_jsonrpc_url: Option<String>,
    pub apex_package_id: Option<String>,
    pub pool_config_id: Option<String>,
    pub keeper_cap_id: Option<String>,
    pub sui_keeper_key: Option<String>,
    pub admin_secret: Option<String>,
    pub pool_oracle_ids: Option<String>,
}

#[derive(Debug, Clone, PartialEq, Eq)]
pub struct Config {
    pub port: u16,
    pub database_url: String,
    pub sui_jsonrpc_url: String,
    pub apex_package_id: Option<String>,
    pub pool_config_id: Option<String>,
    pub keeper_cap_id: Option<String>,
    pub sui_keeper_key: Option<String>,
    /// The token that admin requests carry; without it they are all refused.
    pub admin_secret: Option<String>,
    /// The oracles of a new pool that names none.
    pub pool_oracle_ids: Option<Vec<String>>,
}

/// Why there is no configuration.
#[derive(Debug, Clone, Copy, PartialEq, Eq, Structural)]
pub enum ConfigError {
    PortInvalid,
    PortTooLarge,
    DatabaseUrlMissing,
}

pub open spec fn config_error_text(e: ConfigError) -> Seq<char> {
    match e {
        ConfigError::PortInvalid => "invalid digit found in string"@,
        ConfigError::PortTooLarge => "number too large to fit in target type"@,
        ConfigError::DatabaseUrlMissing => "DATABASE_URL is required"@,
    }
}

impl ConfigError {
    pub fn message(self) -> (r: &'static str)
        ensures
            r@ == config_error_text(self),
    {
        match self {
            ConfigError::PortInvalid => "invalid digit found in string",
            ConfigError::PortTooLarge => "number too large to fit in target type",
            ConfigError::DatabaseUrlMissing => "DATABASE_URL is required",
        }
    }
}

/// A variable that holds more than white space.
pub open spec fn filled(v: Option<Seq<char>>) -> Option<Seq<char>> {
    match v {
        Some(s) => if trimmed(s).len() > 0 {
            Some(s)
        } else {
            None
        },
        None => None,
    }
}

fn non_empty(v: Option<String>) -> (r: Option<String>)
    ensures
        view_opt(r) == filled(view_opt(v)),
{
    match v {
        Some(s) => if trim(s.as_str()).as_str().is_empty() {
            None
        } else {
            Some(s)
        },
        None => None,
    }
}

/// The digits that a text starts with.
pub open spec fn leading_digits(s: Seq<char>) -> Seq<char>
    decreases s.len(),
{
    if s.len() > 0 && is_digit(s[0]) {
        seq![s[0]] + leading_digits(s.skip(1))
    } else {
        seq![]
    }
}

/// The port in a text. It is too large if the digits it starts with are.
pub open spec fn port(s: Seq<char>) -> Result<u16, ConfigError> {
    match unsigned(s, 65535) {
        Some(n) => Ok(n as u16),
        None => if digits_value(leading_digits(unsigned_body(s))) > 65535 {
            Err(ConfigError::PortTooLarge)
        } else {
            Err(ConfigError::PortInvalid)
        },
    }
}

/// The digits up to `i` are all there are at the start so far.
proof fn lemma_leading(s: Seq<char>, i: int)
    requires
        0 <= i <= s.len(),
        all_digits(s.take(i)),
    ensures
        leading_digits(s) == s.take(i) + leading_digits(s.skip(i)),
    decreases i,
{
    if i == 0 {
        assert(s.take(0) + leading_digits(s.skip(0)) =~= leading_digits(s)) by {
            assert(s.skip(0) =~= s);
        }
    } else {
        assert(is_digit(s.take(i)[0]));
        let rest = s.skip(1);
        assert(rest.take(i - 1) =~= s.take(i).skip(1));
        assert(all_digits(rest.take(i - 1))) by {
            assert forall|k: int| 0 <= k < i - 1 implies is_digit(
                #[trigger] rest.take(i - 1)[k],
            ) by {
                assert(rest.take(i - 1)[k] == s.take(i)[k + 1]);
            }
        }
        lemma_leading(rest, i - 1);
        assert(rest.skip(i - 1) =~= s.skip(i));
        assert(seq![s[0]] + (rest.take(i - 1) + leading_digits(s.skip(i))) =~= s.take(i)
            + leading_digits(s.skip(i)));
    }
}

/// More digits never make a number smaller.
proof fn lemma_value_grows(a: Seq<char>, b: Seq<char>)
    requires
        all_digits(a + b),
    ensures
        digits_value(a + b) >= digits_value(a) >= 0,
    decreases b.len() + a.len(),
{
    if b.len() > 0 {
        let s = a + b;
        assert(s.drop_last() =~= a + b.drop_last());
        assert(is_digit(s[s.len() - 1]));
        assert(all_digits(a + b.drop_last())) by {
            assert forall|k: int| 0 <= k < (a + b.drop_last()).len() implies is_digit(
                #[trigger] (a + b.drop_last())[k],
            ) by {
                assert((a + b.drop_last())[k] == s[k]);
            }
        }
        lemma_value_grows(a, b.drop_last());
    } else if a.len() > 0 {
        assert(a + b =~= a);
        assert(is_digit((a + b)[a.len() - 1]));
        assert(all_digits(a.drop_last() + b)) by {
            assert forall|k: int| 0 <= k < (a.drop_last() + b).len() implies is_digit(
                #[trigger] (a.drop_last() + b)[k],
            ) by {
                assert((a.drop_last() + b)[k] == (a + b)[k]);
            }
        }
        lemma_value_grows(a.drop_last(), b);
    } else {
        assert(a + b =~= a);
    }
}

proof fn lemma_leading_are_digits(s: Seq<char>)
    ensures
        all_digits(leading_digits(s)),
    decreases s.len(),
{
    if s.len() > 0 && is_digit(s[0]) {
        lemma_leading_are_digits(s.skip(1));
    }
}

/// Whether the digits that a text starts with, after a sign, exceed a port.
fn starts_too_large(s: &str) -> (r: bool)
    ensures
        r == (digits_value(leading_digits(unsigned_body(s@))) > 65535),
{
    let len = s.unicode_len();
    let start: usize = if len > 0 && s.get_char(0) == '+' {
        1
    } else {
        0
    };
    let ghost body = unsigned_body(s@);
    assert(body =~= s@.skip(start as int));
    let mut n: u64 = 0;
    let mut i: usize = start;
    proof {
        assert(body.take(0) =~= Seq::<char>::empty());
    }
    while i < len
        invariant
            start <= i <= len,
            len == s@.len(),
            body == s@.skip(start as int),
            body == unsigned_body(s@),
            all_digits(body.take(i - start)),
            n == digits_value(body.take(i - start)),
            n <= 65535,
        decreases len - i,
    {
        let c = s.get_char(i);
        let ghost k = i - start;
        assert(body[k] == c);
        if c < '0' || c > '9' {
            proof {
                lemma_leading(body, k);
                assert(body.skip(k)[0] == c);
                assert(leading_digits(body.skip(k)) =~= seq![]);
                assert(leading_digits(body) =~= body.take(k));
            }
            return false;
        }
        assert(body.take(k + 1).drop_last() =~= body.take(k));
        assert(all_digits(body.take(k + 1))) by {
            assert forall|j: int| 0 <= j < k + 1 implies is_digit(#[trigger] body.take(k + 1)[j]) by {
                if j < k {
                    assert(body.take(k + 1)[j] == body.take(k)[j]);
                }
            }
        }
        n = n * 10 + (c as u32 - 48) as u64;
        if n > 65535 {
            proof {
                lemma_leading(body, k + 1);
                lemma_leading_are_digits(body);
                lemma_value_grows(body.take(k + 1), leading_digits(body.skip(k + 1)));
            }
            return true;
        }
        i = i + 1;
    }
    proof {
        lemma_leading(body, len - start);
        assert(body.skip(len - start) =~= seq![]);
        assert(leading_digits(body) =~= body.take(len - start));
    }
    false
}

fn parse_port(s: &str) -> (r: Result<u16, ConfigError>)
    ensures
        r == port(s@),
{
    match parse_unsigned(s, 65535) {
        Some(n) => {
            Ok(n as u16)
        },
        None => if starts_too_large(s) {
            Err(ConfigError::PortTooLarge)
        } else {
            Err(ConfigError::PortInvalid)
        },
    }
}

/// The port to listen on: 8080 unless one is set.
pub open spec fn chosen_port(v: Option<Seq<char>>) -> Result<u16, ConfigError> {
    match filled(v) {
        Some(s) => port(s),
        None => Ok(8080),
    }
}

/// The variables of a configuration.
pub open spec fn configured(v: Vars, c: Config) -> bool {
    &&& chosen_port(view_opt(v.port)) == Ok::<u16, ConfigError>(c.port)
    &&& filled(view_opt(v.database_url)) == Some(c.database_url@)
    &&& c.sui_jsonrpc_url@ == match filled(view_opt(v.sui_jsonrpc_url)) {
        Some(s) => s,
        None => "https://fullnode.testnet.sui.io:443"@,
    }
    &&& view_opt(c.apex_package_id) == filled(view_opt(v.apex_package_id))
    &&& view_opt(c.pool_config_id) == filled(view_opt(v.pool_config_id))
    &&& view_opt(c.keeper_cap_id) == filled(view_opt(v.keeper_cap_id))
    &&& view_opt(c.sui_keeper_key) == filled(view_opt(v.sui_keeper_key))
    &&& view_opt(c.admin_secret) == filled(view_opt(v.admin_secret))
    &&& match filled(view_opt(v.pool_oracle_ids)) {
        Some(s) => c.pool_oracle_ids matches Some(ids) && view_all(ids@) == list_entries(s),
        None => c.pool_oracle_ids is None,
    }
}

impl Config {
    /// The configuration that the variables give. The port is looked at first.
    pub fn from_env(vars: Vars) -> (r: Result<Config, ConfigError>)
        ensures
            match r {
                Ok(c) => configured(vars, c),
                Err(e) => match chosen_port(view_opt(vars.port)) {
                    Err(f) => e == f,
                    Ok(_) => e == ConfigError::DatabaseUrlMissing && filled(
                        view_opt(vars.database_url),
                    ) is None,
                },
            },
            chosen_port(view_opt(vars.port)) is Err ==> r is Err,
            filled(view_opt(vars.database_url)) is None ==> r is Err,
    {
        let port: u16 = match non_empty(vars.port) {
            Some(s) => match parse_port(s.as_str()) {
                Ok(p) => p,
                Err(e) => return Err(e),
            },
            None => 8080,
        };
        let database_url = match non_empty(vars.database_url) {
            Some(s) => s,
            None => return Err(ConfigError::DatabaseUrlMissing),
        };
        let sui_jsonrpc_url = match non_empty(vars.sui_jsonrpc_url) {
            Some(s) => s,
            None => "https://fullnode.testnet.sui.io:443".to_owned(),
        };
        let pool_oracle_ids = match non_empty(vars.pool_oracle_ids) {
            Some(s) => Some(parse_list(s.as_str())),
            None => None,
        };
        Ok(
            Config {
                port,
                database_url,
                sui_jsonrpc_url,
                apex_package_id: non_empty(vars.apex_package_id),
                pool_config_id: non_empty(vars.pool_config_id),
                keeper_cap_id: non_empty(vars.keeper_cap_id),
                sui_keeper_key: non_empty(vars.sui_keeper_key),
                admin_secret: non_empty(vars.admin_secret),
                pool_oracle_ids,
            },
        )
    }

    /// The indexer runs once the package is known.
    pub open spec fn indexes(&self) -> bool {
        self.apex_package_id is Some
    }

    /// The keeper runs once it knows the package, the pool configuration, its
    /// capability and its key.
    pub open spec fn keeps(&self) -> bool {
        self.apex_package_id is Some && self.pool_config_id is Some && self.keeper_cap_id is Some
            && self.sui_keeper_key is Some
    }

    pub fn indexer_enabled(&self) -> (r: bool)
        ensures
            r == self.indexes(),
    {
        self.apex_package_id.is_some()
    }

    pub fn keeper_enabled(&self) -> (r: bool)
        ensures
            r == self.keeps(),
    {
        self.apex_package_id.is_some() && self.pool_config_id.is_some()
            && self.keeper_cap_id.is_some() && self.sui_keeper_key.is_some()
    }
}

/// The keeper never runs without the indexer.
pub proof fn law_keeper_needs_indexer(c: Config)
    requires
        c.keeps(),
    ensures
        c.indexes(),
{
}

/// A server that is given a database and nothing else starts, on port 8080 and
/// with the indexer and the keeper idle.
pub proof fn law_chain_is_optional(v: Vars, c: Config)
    requires
        configured(v, c),
        v.port is None,
        v.apex_package_id is None,
    ensures
        c.port == 8080,
        !c.indexes(),
        !c.keeps(),
{
}

/// A variable counts as set, as it stands, as soon as it holds anything but white space.
pub proof fn law_blank_is_not_set(s: Seq<char>)
    ensures
        (forall|i: int| 0 <= i < s.len() ==> white_space(#[trigger] s[i])) ==> filled(Some(s))
            is None,
        (exists|i: int| 0 <= i < s.len() && !white_space(#[trigger] s[i])) ==> filled(Some(s))
            == Some(s),
        filled(None) is None,
{
    law_white_space_trims_to_nothing(s);
}

/// A port that is written down is read back; a number of more than sixteen bits is too
/// large for one.
pub proof fn law_port_reads_back(n: nat)
    ensures
        n <= 65535 ==> (port(decimal(n as int)) matches Ok(p) && p == n),
        n > 65535 ==> port(decimal(n as int)) == Err::<u16, ConfigError>(
            ConfigError::PortTooLarge,
        ),
{
    let s = decimal(n as int);
    if n <= 65535 {
        law_decimal_reads_back(n, 65535);
    } else {
        law_decimal_reads_back(n, n as int);
        let body = unsigned_body(s);
        assert(unsigned(s, n as int) == Some(n as int));
        assert(all_digits(body));
        assert(body.take(body.len() as int) =~= body);
        lemma_leading(body, body.len() as int);
        assert(leading_digits(body.skip(body.len() as int)) =~= seq![]);
        assert(leading_digits(body) =~= body);
    }
}

/// A text that does not start with a digit is no port.
pub proof fn law_words_are_no_ports(s: Seq<char>)
    requires
        s.len() > 0,
        !('0' <= s[0] <= '9'),
        s[0] != '+',
    ensures
        port(s) == Err::<u16, ConfigError>(ConfigError::PortInvalid),
{
    law_numbers_are_digits(s, 65535);
    assert(leading_digits(s) =~= seq![]);
}

/// What a configuration has, it has from the variable of the same name, as it stands; the
/// oracles are the entries of their list. What is not set is not there.
pub proof fn law_variables_go_where_they_belong(v: Vars, c: Config)
    requires
        configured(v, c),
    ensures
        v.database_url matches Some(s) && s@ == c.database_url@,
        v.sui_jsonrpc_url is None ==> c.sui_jsonrpc_url@ == "https://fullnode.testnet.sui.io:443"@,
        v.sui_jsonrpc_url matches Some(s) ==> trimmed(s@).len() > 0 ==> c.sui_jsonrpc_url@ == s@,
        c.apex_package_id matches Some(t) ==> (v.apex_package_id matches Some(s) && s@ == t@),
        c.pool_config_id matches Some(t) ==> (v.pool_config_id matches Some(s) && s@ == t@),
        c.keeper_cap_id matches Some(t) ==> (v.keeper_cap_id matches Some(s) && s@ == t@),
        c.sui_keeper_key matches Some(t) ==> (v.sui_keeper_key matches Some(s) && s@ == t@),
        c.admin_secret matches Some(t) ==> (v.admin_secret matches Some(s) && s@ == t@),
        c.pool_oracle_ids matches Some(t) ==> (v.pool_oracle_ids matches Some(s) && list_entries(
            s@,
        ) == view_all(t@)),
        v.apex_package_id matches Some(s) ==> trimmed(s@).len() > 0 ==> c.apex_package_id is Some,
        v.pool_config_id matches Some(s) ==> trimmed(s@).len() > 0 ==> c.pool_config_id is Some,
        v.keeper_cap_id matches Some(s) ==> trimmed(s@).len() > 0 ==> c.keeper_cap_id is Some,
        v.sui_keeper_key matches Some(s) ==> trimmed(s@).len() > 0 ==> c.sui_keeper_key is Some,
        v.admin_secret matches Some(s) ==> trimmed(s@).len() > 0 ==> c.admin_secret is Some,
        v.pool_oracle_ids matches Some(s) ==> trimmed(s@).len() > 0 ==> c.pool_oracle_ids is Some,
        v.port matches Some(s) ==> trimmed(s@).len() > 0 ==> port(s@) == Ok::<u16, ConfigError>(
            c.port,
        ),
{
}

/// The keeper runs if and only if the package, the pool configuration, its capability and
/// its key are all known; for the indexer the package is enough.
pub proof fn law_what_runs(c: Config)
    ensures
        c.apex_package_id is None ==> !c.keeps() && !c.indexes(),
        c.pool_config_id is None ==> !c.keeps(),
        c.keeper_cap_id is None ==> !c.keeps(),
        c.sui_keeper_key is None ==> !c.keeps(),
        c.apex_package_id is Some ==> c.indexes(),
        c.apex_package_id is Some && c.pool_config_id is Some && c.keeper_cap_id is Some
            && c.sui_keeper_key is Some ==> c.keeps(),
{
}

/// What is said of a configuration that cannot be had.
pub proof fn law_configuration_errors_say_why()
    ensures
        config_error_text(ConfigError::PortInvalid) == "invalid digit found in string"@,
        config_error_text(ConfigError::PortTooLarge) == "number too large to fit in target type"@,
        config_error_text(ConfigError::DatabaseUrlMissing) == "DATABASE_URL is required"@,
{
}

/// A text whose first digits are too large for a port is too large, whatever follows; one
/// whose first digits are a port but end in something else is no number.
pub proof fn law_port_goes_by_its_first_digits(n: nat, rest: Seq<char>)
    ensures
        n > 65535 ==> port(decimal(n as int) + rest) == Err::<u16, ConfigError>(
            ConfigError::PortTooLarge,
        ),
        n <= 65535 && rest.len() > 0 && !('0' <= rest[0] <= '9') ==> port(decimal(n as int) + rest)
            == Err::<u16, ConfigError>(ConfigError::PortInvalid),
{
    let head = decimal(n as int);
    let s = head + rest;
    law_decimal_has_no_leading_zero(n);
    law_decimal_reads_back(n, n as int);
    let k = head.len() as int;
    assert('0' <= head[0] <= '9');
    assert(unsigned_body(s) == s);
    assert(unsigned_body(head) == head);
    assert(digits_value(head) == n);
    assert(s.take(k) =~= head);
    assert(s.skip(k) =~= rest);
    assert(all_digits(head));
    lemma_leading(s, k);
    if n > 65535 {
        lemma_leading_are_digits(s);
        lemma_value_grows(head, leading_digits(rest));
        if all_digits(s) {
            lemma_leading(s, s.len() as int);
            assert(s.take(s.len() as int) =~= s);
            assert(leading_digits(s.skip(s.len() as int)) =~= seq![]);
            assert(leading_digits(s) =~= s);
        }
    } else if rest.len() > 0 && !('0' <= rest[0] <= '9') {
        assert(leading_digits(rest) =~= seq![]);
        assert(leading_digits(s) =~= head);
        assert(s[k] == rest[0]);
        assert(!is_digit(s[k]));
    }
}

} // verus!
