//! The Kafka event bus: its client settings and the key of its records.
use vstd::prelude::*;
use vstd::string::*;

verus! {

/// The SASL credentials with which a Kafka event bus authenticates.
pub struct Security<'a> {
    pub username: &'a str,
    pub password: &'a str,
    pub sasl_mechanism: &'a str,
}

/// The decimal digit `d` (0 to 9).
pub open spec fn digit(d: nat) -> char {
    (48 + d) as char
}

/// The decimal representation of `n`, without sign or leading zeros.
pub open spec fn decimal(n: nat) -> Seq<char>
    decreases n,
{
    if n < 10 {
        seq![digit(n)]
    } else {
        decimal(n / 10) + seq![digit(n % 10)]
    }
}

fn digit_text(d: u64) -> (s: &'static str)
    requires
        d < 10,
    ensures
        s@ == seq![digit(d as nat)],
{
    proof {
        reveal_strlit("0");
        reveal_strlit("1");
        reveal_strlit("2");
        reveal_strlit("3");
        reveal_strlit("4");
        reveal_strlit("5");
        reveal_strlit("6");
        reveal_strlit("7");
        reveal_strlit("8");
        reveal_strlit("9");
    }
    if d == 0 {
        "0"
    } else if d == 1 {
        "1"
    } else if d == 2 {
        "2"
    } else if d == 3 {
        "3"
    } else if d == 4 {
        "4"
    } else if d == 5 {
        "5"
    } else if d == 6 {
        "6"
    } else if d == 7 {
        "7"
    } else if d == 8 {
        "8"
    } else {
        "9"
    }
}

/// `n` in decimal, as `u64::to_string` writes it.
pub fn decimal_text(n: u64) -> (s: String)
    ensures
        s@ == decimal(n as nat),
    decreases n,
{
    if n < 10 {
        String::from_str(digit_text(n))
    } else {
        let mut s = decimal_text(n / 10);
        s.append(digit_text(n % 10));
        s
    }
}

/// The settings that a Kafka event bus gives its client, in order: the brokers, the
/// request timeout in milliseconds, and, with credentials, SASL over SSL with the
/// mechanism, user name and password.
pub open spec fn client_settings_spec(
    broker_url_list: Seq<char>,
    request_timeout: nat,
    security: Option<(Seq<char>, Seq<char>, Seq<char>)>,
) -> Seq<(Seq<char>, Seq<char>)> {
    seq![
        ("metadata.broker.list"@, broker_url_list),
        ("request.timeout.ms"@, decimal(request_timeout)),
    ] + match security {
        Some((username, password, sasl_mechanism)) => seq![
            ("security.protocol"@, "SASL_SSL"@),
            ("sasl.mechanisms"@, sasl_mechanism),
            ("sasl.username"@, username),
            ("sasl.password"@, password),
        ],
        None => Seq::empty(),
    }
}

/// The credentials of `security`, as plain texts.
pub open spec fn credentials(security: Option<&Security>) -> Option<(Seq<char>, Seq<char>, Seq<char>)> {
    match security {
        Some(s) => Some((s.username@, s.password@, s.sasl_mechanism@)),
        None => None,
    }
}

/// The client settings of a Kafka event bus (see `client_settings_spec`), as
/// key-value pairs.
pub fn client_settings(broker_url_list: &str, request_timeout: u64, security: Option<&Security>) -> (settings: Vec<
    (String, String),
>)
    ensures
        settings@.map_values(|kv: (String, String)| (kv.0@, kv.1@)) == client_settings_spec(
            broker_url_list@,
            request_timeout as nat,
            credentials(security),
        ),
{
    let mut settings: Vec<(String, String)> = Vec::new();
    settings.push((String::from_str("metadata.broker.list"), String::from_str(broker_url_list)));
    settings.push((String::from_str("request.timeout.ms"), decimal_text(request_timeout)));
    match security {
        Some(security) => {
            settings.push((String::from_str("security.protocol"), String::from_str("SASL_SSL")));
            settings.push((String::from_str("sasl.mechanisms"), String::from_str(security.sasl_mechanism)));
            settings.push((String::from_str("sasl.username"), String::from_str(security.username)));
            settings.push((String::from_str("sasl.password"), String::from_str(security.password)));
        },
        None => {},
    }
    proof {
        assert(settings@.map_values(|kv: (String, String)| (kv.0@, kv.1@)) =~= client_settings_spec(
            broker_url_list@,
            request_timeout as nat,
            credentials(security),
        ));
    }
    settings
}

#[verifier::external_type_specification]
#[verifier::external_body]
pub struct ExClientConfig(rdkafka::ClientConfig);

/// The parameters that an `rdkafka::ClientConfig` holds: its map from parameter names to
/// values.
pub uninterp spec fn client_config_entries(config: rdkafka::ClientConfig) -> Map<Seq<char>, Seq<char>>;

/// Calls `rdkafka::ClientConfig::set`, which inserts `key` with `value` in the parameters
/// of the configuration, replacing a value that `key` had.
#[verifier::external_body]
fn set_client_setting(config: &mut rdkafka::ClientConfig, key: String, value: String)
    ensures
        client_config_entries(*final(config)) == client_config_entries(*old(config)).insert(key@, value@),
{
    config.set(key, value);
}

/// The parameters `entries` with the settings set one after the other, a later setting of
/// a name replacing an earlier one.
pub open spec fn with_settings(
    entries: Map<Seq<char>, Seq<char>>,
    settings: Seq<(Seq<char>, Seq<char>)>,
) -> Map<Seq<char>, Seq<char>>
    decreases settings.len(),
{
    if settings.len() == 0 {
        entries
    } else {
        with_settings(entries, settings.drop_last()).insert(settings.last().0, settings.last().1)
    }
}

/// Sets the client settings of a Kafka event bus (see `client_settings_spec`) in the
/// client configuration `config`, in order, over what it already holds.
pub fn configure_client(
    config: &mut rdkafka::ClientConfig,
    broker_url_list: &str,
    request_timeout: u64,
    security: Option<&Security>,
)
    ensures
        client_config_entries(*final(config)) == with_settings(
            client_config_entries(*old(config)),
            client_settings_spec(broker_url_list@, request_timeout as nat, credentials(security)),
        ),
{
    let settings = client_settings(broker_url_list, request_timeout, security);
    let ghost all = settings@.map_values(|kv: (String, String)| (kv.0@, kv.1@));
    let ghost start = client_config_entries(*config);
    proof {
        assert(all.take(0) =~= Seq::<(Seq<char>, Seq<char>)>::empty());
    }
    for kv in it: settings.into_iter()
        invariant
            all == it.seq().map_values(|kv: (String, String)| (kv.0@, kv.1@)),
            client_config_entries(*config) == with_settings(start, all.take(it.index() as int)),
    {
        let ghost k = it.index();
        let (key, value) = kv;
        set_client_setting(config, key, value);
        proof {
            assert(all.take(k + 1).drop_last() =~= all.take(k as int));
            assert(all.take(k + 1).last() == all[k as int]);
        }
    }
    proof {
        assert(all.take(all.len() as int) =~= all);
    }
}

/// The lowercase hexadecimal digit of `v` (0 to 15).
pub open spec fn hex_digit(v: int) -> char {
    if v < 10 {
        (48 + v) as char
    } else {
        (87 + v) as char
    }
}

/// The `k`-th hexadecimal digit of `id`, from the most significant (0) to the least (31).
pub open spec fn nibble(id: u128, k: int) -> int {
    ((id >> ((4 * (31 - k)) as u128)) & 0xfu128) as int
}

/// How many hyphens the hyphenated form of a UUID has before position `p`.
pub open spec fn hyphens_before(p: int) -> int {
    (if p > 8 { 1int } else { 0int }) + (if p > 13 { 1int } else { 0int }) + (if p > 18 { 1int } else { 0int }) + (
    if p > 23 {
        1int
    } else {
        0int
    })
}

/// The hyphenated form of the UUID whose value is `id`: its 32 lowercase hexadecimal
/// digits, most significant first, in groups of 8, 4, 4, 4 and 12 separated by `-`.
pub open spec fn hyphenated(id: u128) -> Seq<char> {
    Seq::new(
        36,
        |p: int|
            if p == 8 || p == 13 || p == 18 || p == 23 {
                '-'
            } else {
                hex_digit(nibble(id, p - hyphens_before(p)))
            },
    )
}

/// Calls `ToString::to_string` on the UUID whose value is `id`; `uuid::Uuid` displays as
/// its hyphenated lowercase form.
#[verifier::external_body]
fn uuid_text(id: u128) -> (s: String)
    ensures
        s@ == hyphenated(id),
{
    uuid::Uuid::from_u128(id).to_string()
}

/// The key of the record that carries an event of the aggregate instance `aggregate_id`:
/// the instance's UUID, hyphenated.
pub fn record_key(aggregate_id: u128) -> (key: String)
    ensures
        key@ == hyphenated(aggregate_id),
{
    uuid_text(aggregate_id)
}

} // verus!
