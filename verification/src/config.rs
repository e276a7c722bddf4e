//! The service's configuration: the database it uses and how it connects to
//! it, the table it creates, and how many requests it serves at once.

use vstd::prelude::*;
use crate::text::{chars_of, contains, occurs_in};
use sqlx::sqlite::SqliteConnectOptions;

verus! {

#[verifier::external_type_specification]
#[verifier::external_body]
pub struct ExSqliteConnectOptions(sqlx::sqlite::SqliteConnectOptions);

/// The database used when none is configured.
pub open spec fn default_database_url() -> Seq<char> {
    "sqlite://app.db"@
}

/// The database to use: the configured URL, or `sqlite://app.db`.
pub fn database_url(setting: Option<String>) -> (r: String)
    ensures
        setting is None ==> r@ == "sqlite://app.db"@,
        match setting {
            Some(url) => r@ == url@,
            None => r@ == default_database_url(),
        },
{
    match setting {
        Some(url) => url,
        None => {
            let d = "sqlite://app.db";
            proof {
                reveal_strlit("sqlite://app.db");
            }
            d.to_owned()
        },
    }
}

/// How the service connects to its database.
#[derive(Debug, Clone, Copy, PartialEq, Eq, Structural)]
pub struct PoolSettings {
    /// Create the database file when it does not exist.
    pub create_if_missing: bool,
    /// Enforce foreign keys.
    pub foreign_keys: bool,
    /// How long a statement waits for a locked database, in seconds.
    pub busy_timeout_secs: u64,
    /// The most connections the pool opens.
    pub max_connections: u32,
}

/// The settings for a database URL: an in-memory database (one whose URL
/// holds `:memory:`) gets a single connection, so that every request sees
/// the same database; any other gets five.
pub open spec fn settings_for(url: Seq<char>) -> PoolSettings {
    PoolSettings {
        create_if_missing: true,
        foreign_keys: true,
        busy_timeout_secs: 5,
        max_connections: if occurs_in(":memory:"@, url) {
            1
        } else {
            5
        },
    }
}

/// The pool settings for the database at `url`.
pub fn pool_settings(url: &str) -> (r: PoolSettings)
    ensures
        r == settings_for(url@),
        r.max_connections == 1 <==> occurs_in(":memory:"@, url@),
        !occurs_in(":memory:"@, url@) ==> r.max_connections == 5,
        r.create_if_missing && r.foreign_keys && r.busy_timeout_secs == 5,
{
    let memory = ":memory:";
    proof {
        reveal_strlit(":memory:");
    }
    let in_memory = contains(url, memory);
    PoolSettings {
        create_if_missing: true,
        foreign_keys: true,
        busy_timeout_secs: 5,
        max_connections: if in_memory {
            1
        } else {
            5
        },
    }
}

/// SQLite connection options: the URL they were read from, which names the
/// database they open, and the settings the service chooses.
pub struct OptionsModel {
    /// The URL the options were read from.
    pub url: Seq<char>,
    /// Whether a missing database file is created.
    pub create_if_missing: bool,
    /// Whether `PRAGMA foreign_keys` is on.
    pub foreign_keys: bool,
    /// How long a statement waits for a locked database, in seconds.
    pub busy_timeout_secs: u64,
}

/// SQLite connection options, with the settings they carry.
pub struct ConnectOptions {
    inner: SqliteConnectOptions,
    model: Ghost<OptionsModel>,
}

impl View for ConnectOptions {
    type V = OptionsModel;

    closed spec fn view(&self) -> OptionsModel {
        self.model@
    }
}

impl ConnectOptions {
    /// The options, to hand to sqlx.
    pub fn into_inner(self) -> SqliteConnectOptions {
        self.inner
    }
}

/// What `SqliteConnectOptions::from_str` makes of `url`: `None` when it
/// refuses the URL, else the options it builds, read from `url`.
pub uninterp spec fn parsed_sqlite_url(url: Seq<char>) -> Option<OptionsModel>;

/// Calls `SqliteConnectOptions::from_str`, which parses a SQLite URL; its
/// result is named `parsed_sqlite_url`.
#[verifier::external_body]
fn parse_connect_options(url: &str) -> (r: Result<ConnectOptions, sqlx::Error>)
    ensures
        match r {
            Ok(o) => parsed_sqlite_url(url@) == Some(o@) && o@.url == url@,
            Err(_) => parsed_sqlite_url(url@) is None,
        },
{
    match <SqliteConnectOptions as std::str::FromStr>::from_str(url) {
        Ok(inner) => Ok(ConnectOptions { inner, model: Ghost(parsed_sqlite_url(url@)->Some_0) }),
        Err(e) => Err(e),
    }
}

/// Calls `SqliteConnectOptions::create_if_missing`, which sets that one setting.
#[verifier::external_body]
fn set_create_if_missing(options: ConnectOptions, create: bool) -> (r: ConnectOptions)
    ensures
        r@ == (OptionsModel { create_if_missing: create, ..options@ }),
{
    let model = Ghost(OptionsModel { create_if_missing: create, ..options@ });
    ConnectOptions { inner: options.inner.create_if_missing(create), model }
}

/// Calls `SqliteConnectOptions::foreign_keys`, which sets `PRAGMA foreign_keys`.
#[verifier::external_body]
fn set_foreign_keys(options: ConnectOptions, on: bool) -> (r: ConnectOptions)
    ensures
        r@ == (OptionsModel { foreign_keys: on, ..options@ }),
{
    let model = Ghost(OptionsModel { foreign_keys: on, ..options@ });
    ConnectOptions { inner: options.inner.foreign_keys(on), model }
}

/// Calls `SqliteConnectOptions::busy_timeout` with a timeout of `secs`
/// seconds, which sets that one setting.
#[verifier::external_body]
fn set_busy_timeout(options: ConnectOptions, secs: u64) -> (r: ConnectOptions)
    ensures
        r@ == (OptionsModel { busy_timeout_secs: secs, ..options@ }),
{
    let model = Ghost(OptionsModel { busy_timeout_secs: secs, ..options@ });
    ConnectOptions { inner: options.inner.busy_timeout(std::time::Duration::from_secs(secs)), model }
}

/// The connection options for the database at `url` with `settings`: they
/// are read from `url`, carry the settings' file creation, foreign keys and
/// busy timeout, and their making fails exactly when SQLite's options refuse
/// the URL.
pub fn connect_options(url: &str, settings: &PoolSettings) -> (r: Result<ConnectOptions, sqlx::Error>)
    ensures
        r is Ok == parsed_sqlite_url(url@) is Some,
        r matches Ok(o) ==> o@ == (OptionsModel {
            url: url@,
            create_if_missing: settings.create_if_missing,
            foreign_keys: settings.foreign_keys,
            busy_timeout_secs: settings.busy_timeout_secs,
        }),
{
    match parse_connect_options(url) {
        Ok(options) => {
            let options = set_create_if_missing(options, settings.create_if_missing);
            let options = set_foreign_keys(options, settings.foreign_keys);
            Ok(set_busy_timeout(options, settings.busy_timeout_secs))
        },
        Err(e) => Err(e),
    }
}

/// The statement that creates the `todos` table when it does not exist.
pub open spec fn schema_statement() -> Seq<char> {
    "CREATE TABLE IF NOT EXISTS todos (id INTEGER PRIMARY KEY AUTOINCREMENT, title TEXT NOT NULL, completed INTEGER NOT NULL DEFAULT 0)"@
}

/// The SQL text that creates the `todos` table when it does not exist.
pub fn schema_sql() -> (r: &'static str)
    ensures
        r@ == schema_statement(),
{
    "CREATE TABLE IF NOT EXISTS todos (id INTEGER PRIMARY KEY AUTOINCREMENT, title TEXT NOT NULL, completed INTEGER NOT NULL DEFAULT 0)"
}

/// Whether `c` is an ASCII decimal digit.
pub open spec fn is_digit(c: char) -> bool {
    '0' <= c && c <= '9'
}

/// The number that a string of decimal digits writes.
pub open spec fn decimal_value(digits: Seq<char>) -> int
    decreases digits.len(),
{
    if digits.len() == 0 {
        0
    } else {
        decimal_value(digits.drop_last()) * 10 + (digits.last() as int - '0' as int)
    }
}

/// `s` without a leading `+`.
pub open spec fn unsigned_digits(s: Seq<char>) -> Seq<char> {
    if s.len() > 0 && s[0] == '+' {
        s.drop_first()
    } else {
        s
    }
}

/// The number that `s` writes in decimal for `usize`'s `FromStr`: an
/// optional `+` followed by one or more digits and nothing else, whose value
/// fits in a `usize`.
pub open spec fn parsed_usize(s: Seq<char>) -> Option<usize> {
    let digits = unsigned_digits(s);
    if digits.len() > 0 && (forall|i: int| 0 <= i < digits.len() ==> is_digit(#[trigger] digits[i]))
        && decimal_value(digits) <= usize::MAX {
        Some(decimal_value(digits) as usize)
    } else {
        None
    }
}

/// The value of a string of digits is at least the value of any of its
/// prefixes, and is never negative.
proof fn lemma_decimal_value_grows(digits: Seq<char>, p: int)
    requires
        0 <= p <= digits.len(),
        forall|i: int| 0 <= i < digits.len() ==> is_digit(#[trigger] digits[i]),
    ensures
        0 <= decimal_value(digits.take(p)) <= decimal_value(digits),
    decreases digits.len(),
{
    if digits.len() > 0 {
        let rest = digits.drop_last();
        assert forall|i: int| 0 <= i < rest.len() implies is_digit(#[trigger] rest[i]) by {
            assert(rest[i] == digits[i]);
        }
        if p == digits.len() {
            lemma_decimal_value_grows(rest, rest.len() as int);
            assert(digits.take(p) =~= digits);
            assert(rest.take(rest.len() as int) =~= rest);
            assert(is_digit(digits[digits.len() - 1]));
        } else {
            lemma_decimal_value_grows(rest, p);
            assert(rest.take(p) =~= digits.take(p));
            assert(is_digit(digits[digits.len() - 1]));
        }
    } else {
        assert(digits.take(p) =~= digits);
    }
}

/// Reads `s` as `usize`'s `FromStr` does: an optional `+` followed by one or
/// more decimal digits, whose value must fit in a `usize`.
pub fn parse_usize(s: &str) -> (r: Option<usize>)
    ensures
        r == parsed_usize(s@),
{
    let cs = chars_of(s);
    let n = cs.len();
    let start: usize = if n > 0 && cs[0] == '+' {
        1
    } else {
        0
    };
    let ghost digits = unsigned_digits(s@);
    assert(digits =~= cs@.subrange(start as int, n as int));
    if start == n {
        return None;
    }
    let mut value: usize = 0;
    let mut i: usize = start;
    assert(cs@.subrange(start as int, start as int) =~= Seq::<char>::empty());
    while i < n
        invariant
            start <= i <= n,
            n == cs@.len(),
            start < n,
            digits == cs@.subrange(start as int, n as int),
            cs@ == s@,
            digits == unsigned_digits(s@),
            forall|k: int| start <= k < i ==> is_digit(#[trigger] cs@[k]),
            value == decimal_value(cs@.subrange(start as int, i as int)),
        decreases n - i,
    {
        let c = cs[i];
        if !('0' <= c && c <= '9') {
            assert(digits[i - start] == c);
            assert(!is_digit(digits[i - start]));
            assert(!(forall|k: int| 0 <= k < digits.len() ==> is_digit(#[trigger] digits[k])));
            return None;
        }
        let ghost prefix = cs@.subrange(start as int, i + 1);
        assert(prefix.drop_last() =~= cs@.subrange(start as int, i as int));
        assert(prefix =~= digits.take(i + 1 - start));
        assert(prefix.last() == c);
        assert(decimal_value(prefix) == value * 10 + (c as int - '0' as int));
        let d = ((c as u32) - ('0' as u32)) as usize;
        assert(d == c as int - '0' as int);
        let next = match value.checked_mul(10) {
            Some(v) => v.checked_add(d),
            None => None,
        };
        match next {
            Some(w) => {
                value = w;
            },
            None => {
                proof {
                    assert(decimal_value(digits.take(i + 1 - start)) > usize::MAX);
                    if forall|k: int| 0 <= k < digits.len() ==> is_digit(#[trigger] digits[k]) {
                        lemma_decimal_value_grows(digits, i + 1 - start);
                    }
                }
                return None;
            },
        }
        i = i + 1;
    }
    assert(digits =~= cs@.subrange(start as int, i as int));
    assert forall|k: int| 0 <= k < digits.len() implies is_digit(#[trigger] digits[k]) by {
        assert(digits[k] == cs@[start + k]);
    }
    Some(value)
}

/// Why a concurrency limit was refused.
#[derive(Debug, Clone, Copy, PartialEq, Eq, Structural)]
pub enum ConfigError {
    /// The setting is not a decimal number that fits in a `usize`.
    NotANumber,
    /// The setting is zero.
    Zero,
}

/// How many requests are served at once when nothing is configured.
pub open spec fn default_concurrency_limit() -> usize {
    100
}

/// The concurrency limit that a setting gives: the default when there is
/// none, else the number it writes, which must be positive.
pub open spec fn limit_for(setting: Option<Seq<char>>) -> Result<usize, ConfigError> {
    match setting {
        None => Ok(default_concurrency_limit()),
        Some(s) => match parsed_usize(s) {
            None => Err(ConfigError::NotANumber),
            Some(n) => if n == 0 {
                Err(ConfigError::Zero)
            } else {
                Ok(n)
            },
        },
    }
}

/// The most requests served at once, from the `MAX_CONCURRENT_REQUESTS` setting.
pub fn concurrency_limit(setting: Option<&str>) -> (r: Result<usize, ConfigError>)
    ensures
        r matches Ok(n) ==> n > 0,
        setting is None ==> r == Ok::<usize, ConfigError>(100),
        setting matches Some(s) ==> (parsed_usize(s@) matches Some(n) ==> (n > 0 ==> r == Ok::<
            usize,
            ConfigError,
        >(n))),
        r == limit_for(
            match setting {
                Some(s) => Some(s@),
                None => None,
            },
        ),
{
    match setting {
        None => Ok(100),
        Some(s) => match parse_usize(s) {
            None => Err(ConfigError::NotANumber),
            Some(n) => if n == 0 {
                Err(ConfigError::Zero)
            } else {
                Ok(n)
            },
        },
    }
}

impl ConfigError {
    /// The message with which the service refuses to start.
    pub fn message(&self) -> (r: String)
        ensures
            r@ == match self {
                ConfigError::NotANumber => "MAX_CONCURRENT_REQUESTS must be a positive integer"@,
                ConfigError::Zero => "MAX_CONCURRENT_REQUESTS must be greater than zero"@,
            },
    {
        match self {
            ConfigError::NotANumber => "MAX_CONCURRENT_REQUESTS must be a positive integer".to_owned(),
            ConfigError::Zero => "MAX_CONCURRENT_REQUESTS must be greater than zero".to_owned(),
        }
    }
}

/// A database URL that contains `:memory:` anywhere names an in-memory
/// database and gets exactly one connection, so that every request sees the
/// same database; any other URL gets five. Either way a missing file is
/// created, foreign keys are on, and a locked database is waited on for 5 s.
pub proof fn law_pool_settings(url: Seq<char>)
    ensures
        occurs_in(":memory:"@, url) ==> settings_for(url).max_connections == 1,
        !occurs_in(":memory:"@, url) ==> settings_for(url).max_connections == 5,
        settings_for(url).create_if_missing,
        settings_for(url).foreign_keys,
        settings_for(url).busy_timeout_secs == 5,
{
}

/// Without a setting the database is `sqlite://app.db`, and its table is
/// made by the statement the table's layout calls for.
pub proof fn law_default_database()
    ensures
        default_database_url() == "sqlite://app.db"@,
        schema_statement()
            == "CREATE TABLE IF NOT EXISTS todos (id INTEGER PRIMARY KEY AUTOINCREMENT, title TEXT NOT NULL, completed INTEGER NOT NULL DEFAULT 0)"@,
{
}

/// A string of one or more decimal digits, with or without a leading `+`,
/// whose value fits in a `usize`, reads as that value; the value of digits is
/// built one digit at a time, each step multiplying by ten.
pub proof fn law_decimal_numbers(digits: Seq<char>, c: char)
    ensures
        decimal_value(Seq::empty()) == 0,
        decimal_value(digits.push(c)) == decimal_value(digits) * 10 + (c as int - '0' as int),
        digits.len() > 0 && (forall|i: int| 0 <= i < digits.len() ==> is_digit(#[trigger] digits[i]))
            && decimal_value(digits) <= usize::MAX && (digits[0] != '+') ==> parsed_usize(digits)
            == Some(decimal_value(digits) as usize) && parsed_usize(seq!['+'] + digits) == Some(
            decimal_value(digits) as usize,
        ),
{
    assert(digits.push(c).drop_last() =~= digits);
    assert((seq!['+'] + digits).drop_first() =~= digits);
}

/// Only digits are read: a string that holds any character other than a
/// decimal digit, save one leading `+`, is refused, and so are the empty
/// string and a lone `+`.
pub proof fn law_only_digits_are_read(s: Seq<char>)
    ensures
        parsed_usize(s) is Some ==> s.len() > 0 && forall|i: int|
            0 <= i < s.len() ==> (is_digit(#[trigger] s[i]) || (i == 0 && s[i] == '+')),
        parsed_usize(Seq::empty()) is None,
        parsed_usize(seq!['+']) is None,
{
    if parsed_usize(s) is Some {
        let d = unsigned_digits(s);
        assert forall|i: int| 0 <= i < s.len() implies (is_digit(#[trigger] s[i]) || (i == 0 && s[i]
            == '+')) by {
            if s.len() > 0 && s[0] == '+' {
                if i > 0 {
                    assert(s[i] == d[i - 1]);
                }
            } else {
                assert(s[i] == d[i]);
            }
        }
    }
    assert(seq!['+'].drop_first().len() == 0);
}

/// A setting that writes a positive number gives exactly that limit, with no
/// cap; zero and anything that is not a number are refused; no setting gives
/// the default of 100.
pub proof fn law_concurrency_limit(s: Seq<char>)
    ensures
        limit_for(None) == Ok::<usize, ConfigError>(100),
        parsed_usize(s) matches Some(n) ==> (n > 0 ==> limit_for(Some(s)) == Ok::<usize, ConfigError>(
            n,
        )),
        parsed_usize(s) == Some(0usize) ==> limit_for(Some(s)) == Err::<usize, ConfigError>(
            ConfigError::Zero,
        ),
        parsed_usize(s) is None ==> limit_for(Some(s)) == Err::<usize, ConfigError>(
            ConfigError::NotANumber,
        ),
{
}

} // verus!
