//! Remote servers: the list shown at start, which configuration a server
//! connects with, and where its connection goes.
use vstd::prelude::*;
use crate::configuration::ServerConfig;
use crate::screens::ServerInfo;
use crate::text::{chars_of, contains, copy_str, occurs_at, spec_contains, string_from_chars, str_eq};

verus! {

/// A server as listed, by its characters.
pub struct ServerRow {
    pub name: Seq<char>,
    pub address: Seq<char>,
    pub status: Seq<char>,
}

/// The row a configured server is listed as before any connection.
pub open spec fn listed(c: ServerConfig) -> ServerRow {
    ServerRow { name: c.name@, address: c.address@, status: "Disconnected"@ }
}

/// A listed server by its characters.
pub open spec fn row_of(s: ServerInfo) -> ServerRow {
    ServerRow { name: s.name@, address: s.address@, status: s.status@ }
}

/// The rows of the configured servers, in order; none when none is configured.
pub open spec fn spec_initial_servers(configs: Option<Seq<ServerConfig>>) -> Seq<ServerRow> {
    match configs {
        Some(cs) => cs.map_values(|c: ServerConfig| listed(c)),
        None => seq![],
    }
}

/// The server list at start: each configured server, disconnected.
pub fn initial_servers(configs: &Option<Vec<ServerConfig>>) -> (out: Vec<ServerInfo>)
    ensures
        out@.map_values(|s: ServerInfo| row_of(s)) == spec_initial_servers(
            match configs {
                Some(cs) => Some(cs@),
                None => None,
            },
        ),
{
    let mut out: Vec<ServerInfo> = Vec::new();
    match configs {
        None => {
            assert(out@.map_values(|s: ServerInfo| row_of(s)) =~= Seq::<ServerRow>::empty());
        },
        Some(cs) => {
            let mut i: usize = 0;
            while i < cs.len()
                invariant
                    i <= cs@.len(),
                    out@.map_values(|s: ServerInfo| row_of(s)) == cs@.take(i as int).map_values(
                        |c: ServerConfig| listed(c),
                    ),
                decreases cs@.len() - i,
            {
                let c = &cs[i];
                let row = ServerInfo {
                    name: copy_str(c.name.as_str()),
                    address: copy_str(c.address.as_str()),
                    status: copy_str("Disconnected"),
                };
                let ghost prev = out@;
                let ghost r = row_of(row);
                assert(r == listed(cs@[i as int]));
                out.push(row);
                assert(out@ == prev.push(row));
                assert(cs@.take(i + 1) == cs@.take(i as int).push(cs@[i as int]));
                assert(out@.map_values(|s: ServerInfo| row_of(s)) =~= prev.map_values(
                    |s: ServerInfo| row_of(s),
                ).push(r));
                assert(cs@.take(i + 1).map_values(|c: ServerConfig| listed(c)) =~= cs@.take(
                    i as int,
                ).map_values(|c: ServerConfig| listed(c)).push(listed(cs@[i as int])));
                i = i + 1;
            }
            assert(cs@.take(cs@.len() as int) == cs@);
        },
    }
    out
}

/// The first configuration whose name is `name`.
pub open spec fn first_named(configs: Seq<ServerConfig>, name: Seq<char>) -> Option<int>
    decreases configs.len(),
{
    if configs.len() == 0 {
        None
    } else {
        match first_named(configs.drop_last(), name) {
            Some(i) => Some(i),
            None => if configs.last().name@ == name {
                Some(configs.len() - 1)
            } else {
                None
            },
        }
    }
}

fn first_config_named(cs: &Vec<ServerConfig>, name: &str) -> (r: Option<usize>)
    ensures
        r == match first_named(cs@, name@) {
            Some(i) => Some(i as usize),
            None => None,
        },
{
    let mut i: usize = 0;
    while i < cs.len()
        invariant
            i <= cs@.len(),
            first_named(cs@.take(i as int), name@) is None,
        decreases cs@.len() - i,
    {
        assert(cs@.take(i + 1).drop_last() == cs@.take(i as int));
        if str_eq(cs[i].name.as_str(), name) {
            assert(cs@.take(i + 1).last() == cs@[i as int]);
            assert(first_named(cs@.take(i + 1), name@) == Some(i as int));
            proof {
                lemma_first_named_prefix(cs@, name@, i as int + 1);
            }
            return Some(i);
        }
        i = i + 1;
    }
    assert(cs@.take(cs@.len() as int) == cs@);
    None
}

/// The configuration a listed server connects with: the first configured
/// server of the same name, if there is one.
pub fn config_for(configs: &Option<Vec<ServerConfig>>, name: &str) -> (r: Option<usize>)
    ensures
        r == match configs {
            Some(cs) => match first_named(cs@, name@) {
                Some(i) => Some(i as usize),
                None => None,
            },
            None => None,
        },
{
    match configs {
        None => None,
        Some(cs) => first_config_named(cs, name),
    }
}

proof fn lemma_first_named_prefix(cs: Seq<ServerConfig>, name: Seq<char>, k: int)
    requires
        0 <= k <= cs.len(),
        first_named(cs.take(k), name) is Some,
    ensures
        first_named(cs, name) == first_named(cs.take(k), name),
    decreases cs.len() - k,
{
    if k < cs.len() {
        assert(cs.take(k + 1).drop_last() == cs.take(k));
        lemma_first_named_prefix(cs, name, k + 1);
    } else {
        assert(cs.take(k) == cs);
    }
}

/// The address a connection goes to: the configured one when it names a
/// port, else port 22 on it.
pub open spec fn spec_ssh_address(address: Seq<char>) -> Seq<char> {
    if spec_contains(address, ":"@) {
        address
    } else {
        address + ":22"@
    }
}

/// The address a connection to this server goes to.
pub fn ssh_address(config: &ServerConfig) -> (addr: String)
    ensures
        addr@ == spec_ssh_address(config.address@),
{
    let a = config.address.as_str();
    if contains(a, ":") {
        copy_str(a)
    } else {
        copy_str(a).concat(":22")
    }
}

/// Where a configured key file is looked for.
pub enum KeyLocation {
    /// This path under the user's home directory.
    InHome(String),
    /// The path as configured.
    AsGiven,
}

/// `s` begins with `p`.
pub open spec fn starts_with(s: Seq<char>, p: Seq<char>) -> bool {
    p.len() <= s.len() && s.subrange(0, p.len() as int) == p
}

/// Where a key file is looked for: `~/rest` and the common slip
/// `/Downloads/rest` are taken under the home directory (the latter as
/// `Downloads/rest`); any other path as it is.
pub open spec fn spec_key_location(key: Seq<char>) -> Option<Seq<char>> {
    if starts_with(key, "~/"@) {
        Some(key.subrange(2, key.len() as int))
    } else if starts_with(key, "/Downloads/"@) {
        Some(key.subrange(1, key.len() as int))
    } else {
        None
    }
}

fn begins_with(cs: &Vec<char>, p: &str) -> (b: bool)
    ensures
        b == starts_with(cs@, p@),
{
    let ps = chars_of(p);
    if ps.len() > cs.len() {
        return false;
    }
    let mut i: usize = 0;
    while i < ps.len()
        invariant
            ps@ == p@,
            ps@.len() <= cs@.len(),
            i <= ps@.len(),
            forall|k: int| 0 <= k < i ==> cs@[k] == ps@[k],
        decreases ps@.len() - i,
    {
        if cs[i] != ps[i] {
            assert(cs@.subrange(0, ps@.len() as int)[i as int] != p@[i as int]);
            return false;
        }
        i = i + 1;
    }
    assert(cs@.subrange(0, ps@.len() as int) =~= p@);
    true
}

/// Where this key file is looked for.
pub fn key_location(key: &str) -> (loc: KeyLocation)
    ensures
        match loc {
            KeyLocation::InHome(rest) => spec_key_location(key@) == Some(rest@),
            KeyLocation::AsGiven => spec_key_location(key@) is None,
        },
{
    let cs = chars_of(key);
    if begins_with(&cs, "~/") {
        proof {
            reveal_strlit("~/");
        }
        KeyLocation::InHome(string_from_chars(&cs, 2, cs.len()))
    } else if begins_with(&cs, "/Downloads/") {
        proof {
            reveal_strlit("/Downloads/");
        }
        KeyLocation::InHome(string_from_chars(&cs, 1, cs.len()))
    } else {
        KeyLocation::AsGiven
    }
}

/// A connection always goes to an address that names a port: one that
/// already names a port is kept as it is, any other gets port 22; so
/// working out the address twice changes nothing more.
pub proof fn lemma_ssh_address_has_port(address: Seq<char>)
    ensures
        spec_contains(spec_ssh_address(address), ":"@),
        spec_contains(address, ":"@) ==> spec_ssh_address(address) == address,
        !spec_contains(address, ":"@) ==> spec_ssh_address(address) == address + ":22"@,
        spec_ssh_address(spec_ssh_address(address)) == spec_ssh_address(address),
{
    reveal_strlit(":");
    reveal_strlit(":22");
    if !spec_contains(address, ":"@) {
        let a = address + ":22"@;
        assert(a.subrange(address.len() as int, address.len() + 1int) =~= ":"@);
        assert(occurs_at(a, ":"@, address.len() as int));
    }
}

/// A key under `~/` is looked for at the rest of its path in the home
/// directory, and one under `/Downloads/` at `Downloads/` and the rest
/// there; a path that starts with neither `~` nor `/` is taken as given.
pub proof fn lemma_key_location_paths(rest: Seq<char>, other: Seq<char>)
    ensures
        spec_key_location("~/"@ + rest) == Some(rest),
        spec_key_location("/Downloads/"@ + rest) == Some("Downloads/"@ + rest),
        other.len() == 0 || (other[0] != '~' && other[0] != '/') ==> spec_key_location(other)
            is None,
{
    reveal_strlit("~/");
    reveal_strlit("/Downloads/");
    reveal_strlit("Downloads/");
    let a = "~/"@ + rest;
    assert(a.subrange(0, 2) =~= "~/"@);
    assert(a.subrange(2, a.len() as int) =~= rest);
    let b = "/Downloads/"@ + rest;
    assert(b.subrange(0, 11) =~= "/Downloads/"@);
    assert(!starts_with(b, "~/"@)) by {
        assert(b.subrange(0, 2)[0] != "~/"@[0]);
    }
    assert(b.subrange(1, b.len() as int) =~= "Downloads/"@ + rest);
    if other.len() > 0 && other[0] != '~' && other[0] != '/' {
        assert(!starts_with(other, "~/"@)) by {
            if 2 <= other.len() {
                assert(other.subrange(0, 2)[0] != "~/"@[0]);
            }
        }
        assert(!starts_with(other, "/Downloads/"@)) by {
            if 11 <= other.len() {
                assert(other.subrange(0, 11)[0] != "/Downloads/"@[0]);
            }
        }
    }
}

/// A server connects with the first configuration that bears its name,
/// and with none when no configuration bears it.
pub proof fn lemma_first_named_is_first(configs: Seq<ServerConfig>, name: Seq<char>)
    ensures
        first_named(configs, name) is None <==> forall|j: int|
            0 <= j < configs.len() ==> (#[trigger] configs[j]).name@ != name,
        first_named(configs, name) matches Some(i) ==> 0 <= i < configs.len() && configs[i].name@
            == name && forall|j: int| 0 <= j < i ==> (#[trigger] configs[j]).name@ != name,
    decreases configs.len(),
{
    if configs.len() > 0 {
        let d = configs.drop_last();
        lemma_first_named_is_first(d, name);
        assert forall|j: int| 0 <= j < d.len() implies d[j] == configs[j] by {}
        if first_named(configs, name) is None {
            assert forall|j: int| 0 <= j < configs.len() implies (#[trigger] configs[j]).name@
                != name by {
                if j < d.len() {
                    assert(d[j] == configs[j]);
                }
            }
        }
        if first_named(d, name) is Some {
            let i = first_named(d, name)->Some_0;
            assert(configs[i] == d[i]);
        }
    }
}

} // verus!
