use vstd::prelude::*;

verus! {

/// The broker client settings: the servers, SASL over TLS with the given
/// credentials, and a delivery timeout of five seconds, after which a
/// submission counts as failed.
pub open spec fn producer_settings(
    servers: Seq<char>,
    username: Seq<char>,
    password: Seq<char>,
) -> Seq<(Seq<char>, Seq<char>)> {
    seq![
        ("bootstrap.servers"@, servers),
        ("security.protocol"@, "SASL_SSL"@),
        ("sasl.mechanisms"@, "PLAIN"@),
        ("sasl.username"@, username),
        ("sasl.password"@, password),
        ("enable.ssl.certificate.verification"@, "false"@),
        ("message.timeout.ms"@, "5000"@),
    ]
}

pub open spec fn pairs_view(v: Seq<(String, String)>) -> Seq<(Seq<char>, Seq<char>)> {
    v.map_values(|p: (String, String)| (p.0@, p.1@))
}

fn pair(key: &str, value: &str) -> (r: (String, String))
    ensures
        r.0@ == key@,
        r.1@ == value@,
{
    (String::from_str(key), String::from_str(value))
}

/// The settings to create the broker client with, in order.
pub fn producer_config(servers: &str, username: &str, password: &str) -> (r: Vec<(String, String)>)
    ensures
        pairs_view(r@) == producer_settings(servers@, username@, password@),
{
    let mut r: Vec<(String, String)> = Vec::new();
    r.push(pair("bootstrap.servers", servers));
    r.push(pair("security.protocol", "SASL_SSL"));
    r.push(pair("sasl.mechanisms", "PLAIN"));
    r.push(pair("sasl.username", username));
    r.push(pair("sasl.password", password));
    r.push(pair("enable.ssl.certificate.verification", "false"));
    r.push(pair("message.timeout.ms", "5000"));
    assert(pairs_view(r@) =~= producer_settings(servers@, username@, password@));
    r
}

} // verus!
