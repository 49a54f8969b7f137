use vstd::prelude::*;
use crate::error::ConfigError;
use crate::ini::{keys_view, IniEdit, edits_view, ini_update, ini_value, lookup_ini, opt_view, update_ini, chars_eq};
use crate::literal::{digits_at_most, digits_value, is_digits, nat_text, push_nat};
use crate::text::{chars_of, string_of};
use crate::types::{
    ConnectionConfig, GeneralConfig, MasterServerConfig, PluginsConfig, ServerConfigPatch,
    Tes3MPServerConfig,
};

verus! {

/// A text value, or `d` where there is none.
pub open spec fn text_or(v: Option<Seq<char>>, d: Seq<char>) -> Seq<char> {
    match v {
        Some(x) => x,
        None => d,
    }
}

/// An unsigned decimal value of at most `max`, or `d` where there is none or it
/// is not one.
pub open spec fn uint_or(v: Option<Seq<char>>, max: nat, d: nat) -> nat {
    match v {
        Some(x) => if is_digits(x) && digits_value(x) <= max {
            digits_value(x)
        } else {
            d
        },
        None => d,
    }
}

/// A value `true` or `false`, or `d` where there is none or it is neither.
pub open spec fn bool_or(v: Option<Seq<char>>, d: bool) -> bool {
    match v {
        Some(x) => if x == "true"@ {
            true
        } else if x == "false"@ {
            false
        } else {
            d
        },
        None => d,
    }
}

/// `c` holds what the server INI text `t` sets, with each key that is absent,
/// or whose value does not read as the field's type, at its default.
pub open spec fn server_config_of(t: Seq<char>, c: Tes3MPServerConfig) -> bool {
    &&& c.general.local_address@ == text_or(ini_value(t, "General"@, "localAddress"@), "0.0.0.0"@)
    &&& c.general.port as nat == uint_or(ini_value(t, "General"@, "port"@), 65535, 25565)
    &&& c.general.maximum_players as nat == uint_or(
        ini_value(t, "General"@, "maximumPlayers"@),
        65535,
        64,
    )
    &&& c.general.hostname@ == text_or(ini_value(t, "General"@, "hostname"@), "TES3MP server"@)
    &&& c.general.log_level as nat == uint_or(ini_value(t, "General"@, "logLevel"@), 255, 1)
    &&& c.general.password@ == text_or(ini_value(t, "General"@, "password"@), Seq::empty())
    &&& c.plugins.home@ == text_or(ini_value(t, "Plugins"@, "home"@), "./server"@)
    &&& c.plugins.plugins@ == text_or(ini_value(t, "Plugins"@, "plugins"@), "serverCore.lua"@)
    &&& c.master_server.enabled == bool_or(ini_value(t, "MasterServer"@, "enabled"@), true)
    &&& c.master_server.address@ == text_or(
        ini_value(t, "MasterServer"@, "address"@),
        "master.tes3mp.com"@,
    )
    &&& c.master_server.port as nat == uint_or(
        ini_value(t, "MasterServer"@, "port"@),
        65535,
        25561,
    )
    &&& c.master_server.rate as nat == uint_or(
        ini_value(t, "MasterServer"@, "rate"@),
        4294967295,
        10000,
    )
}

/// `c` holds what the client INI text `t` sets, with each key that is absent,
/// or whose value does not read as the field's type, at its default.
pub open spec fn connection_config_of(t: Seq<char>, c: ConnectionConfig) -> bool {
    &&& c.destination_address@ == text_or(
        ini_value(t, "General"@, "destinationAddress"@),
        "localhost"@,
    )
    &&& c.port as nat == uint_or(ini_value(t, "General"@, "port"@), 65535, 25565)
    &&& c.password@ == text_or(ini_value(t, "General"@, "password"@), Seq::empty())
}

/// The view of a `Result` that carries text.
pub open spec fn result_view(r: Result<String, ConfigError>) -> Result<Seq<char>, ConfigError> {
    match r {
        Ok(s) => Ok(s@),
        Err(e) => Err(e),
    }
}

/// The edits that set the client's address, port and password.
pub open spec fn client_edits(ip: Seq<char>, port: nat, password: Seq<char>) -> Seq<
    (Seq<char>, Seq<char>, Seq<char>),
> {
    seq![
        ("General"@, "destinationAddress"@, ip),
        ("General"@, "port"@, nat_text(port)),
        ("General"@, "password"@, password),
    ]
}

/// One edit where `v` holds a value, none where it does not.
pub open spec fn opt_edit(s: Seq<char>, k: Seq<char>, v: Option<Seq<char>>) -> Seq<
    (Seq<char>, Seq<char>, Seq<char>),
> {
    match v {
        Some(x) => seq![(s, k, x)],
        None => Seq::empty(),
    }
}

/// The view of an optional string.
pub open spec fn opt_text(v: Option<String>) -> Option<Seq<char>> {
    match v {
        Some(x) => Some(x@),
        None => None,
    }
}

/// An optional number written in decimal.
pub open spec fn opt_num(v: Option<u64>) -> Option<Seq<char>> {
    match v {
        Some(x) => Some(nat_text(x as nat)),
        None => None,
    }
}

/// An optional flag written as `true` or `false`.
pub open spec fn opt_flag(v: Option<bool>) -> Option<Seq<char>> {
    match v {
        Some(x) => Some(if x { "true"@ } else { "false"@ }),
        None => None,
    }
}

/// The edits that a server patch asks for, one for each value it holds.
pub open spec fn server_edits(p: ServerConfigPatch) -> Seq<(Seq<char>, Seq<char>, Seq<char>)> {
    opt_edit("General"@, "localAddress"@, opt_text(p.general.local_address))
    + opt_edit("General"@, "port"@, opt_num(p.general.port))
    + opt_edit("General"@, "maximumPlayers"@, opt_num(p.general.maximum_players))
    + opt_edit("General"@, "hostname"@, opt_text(p.general.hostname))
    + opt_edit("General"@, "logLevel"@, opt_num(p.general.log_level))
    + opt_edit("General"@, "password"@, opt_text(p.general.password))
    + opt_edit("Plugins"@, "home"@, opt_text(p.plugins.home))
    + opt_edit("Plugins"@, "plugins"@, opt_text(p.plugins.plugins))
    + opt_edit("MasterServer"@, "enabled"@, opt_flag(p.master_server.enabled))
    + opt_edit("MasterServer"@, "address"@, opt_text(p.master_server.address))
    + opt_edit("MasterServer"@, "port"@, opt_num(p.master_server.port))
    + opt_edit("MasterServer"@, "rate"@, opt_num(p.master_server.rate))
}

fn text_field(v: &Option<Vec<char>>, d: &str) -> (r: String)
    ensures
        r@ == text_or(opt_view(*v), d@),
{
    match v {
        Some(x) => string_of(x.as_slice()),
        None => String::from_str(d),
    }
}

fn uint_field(v: &Option<Vec<char>>, max: u64, d: u64) -> (r: u64)
    requires
        d <= max,
    ensures
        r as nat == uint_or(opt_view(*v), max as nat, d as nat),
        r <= max,
{
    match v {
        Some(x) => match digits_at_most(x.as_slice(), 0, x.len(), max) {
            Some(n) => {
                assert(x@.subrange(0, x@.len() as int) =~= x@);
                n
            },
            None => {
                assert(x@.subrange(0, x@.len() as int) =~= x@);
                d
            },
        },
        None => d,
    }
}

fn bool_field(v: &Option<Vec<char>>, d: bool) -> (r: bool)
    ensures
        r == bool_or(opt_view(*v), d),
{
    match v {
        Some(x) => {
            let t = chars_of("true");
            let f = chars_of("false");
            if chars_eq(x.as_slice(), t.as_slice()) {
                true
            } else if chars_eq(x.as_slice(), f.as_slice()) {
                false
            } else {
                d
            }
        },
        None => d,
    }
}

fn push_key(keys: &mut Vec<(Vec<char>, Vec<char>)>, s: &str, k: &str)
    ensures
        keys_view(final(keys)@) == keys_view(old(keys)@).push((s@, k@)),
{
    let p = (chars_of(s), chars_of(k));
    keys.push(p);
    assert(keys_view(keys@) =~= keys_view(old(keys)@).push((s@, k@)));
}

/// Reads the server's network settings from its INI text. Keys are looked up in
/// their own section; a key that is absent, or whose value does not read as the
/// field's type, keeps its default. Unknown keys are ignored.
pub fn parse_server_config(content: &str) -> (r: Result<Tes3MPServerConfig, ConfigError>)
    ensures
        r is Ok,
        server_config_of(content@, r->Ok_0),
{
    let t = chars_of(content);
    let mut keys: Vec<(Vec<char>, Vec<char>)> = Vec::new();
    assert(keys_view(keys@) =~= Seq::<(Seq<char>, Seq<char>)>::empty());
    push_key(&mut keys, "General", "localAddress");
    push_key(&mut keys, "General", "port");
    push_key(&mut keys, "General", "maximumPlayers");
    push_key(&mut keys, "General", "hostname");
    push_key(&mut keys, "General", "logLevel");
    push_key(&mut keys, "General", "password");
    push_key(&mut keys, "Plugins", "home");
    push_key(&mut keys, "Plugins", "plugins");
    push_key(&mut keys, "MasterServer", "enabled");
    push_key(&mut keys, "MasterServer", "address");
    push_key(&mut keys, "MasterServer", "port");
    push_key(&mut keys, "MasterServer", "rate");
    assert(keys_view(keys@).len() == keys@.len());
    let v = lookup_ini(t.as_slice(), &keys);
    let general = GeneralConfig {
        local_address: text_field(&v[0], "0.0.0.0"),
        port: uint_field(&v[1], 65535, 25565) as u16,
        maximum_players: uint_field(&v[2], 65535, 64) as u16,
        hostname: text_field(&v[3], "TES3MP server"),
        log_level: uint_field(&v[4], 255, 1) as u8,
        password: text_field(&v[5], ""),
    };
    let plugins = PluginsConfig {
        home: text_field(&v[6], "./server"),
        plugins: text_field(&v[7], "serverCore.lua"),
    };
    let master_server = MasterServerConfig {
        enabled: bool_field(&v[8], true),
        address: text_field(&v[9], "master.tes3mp.com"),
        port: uint_field(&v[10], 65535, 25561) as u16,
        rate: uint_field(&v[11], 4294967295, 10000) as u32,
    };
    proof {
        reveal_strlit("");
    }
    let c = Tes3MPServerConfig { general, plugins, master_server };
    assert(c.general.local_address@ == text_or(ini_value(t@, "General"@, "localAddress"@), "0.0.0.0"@));
    assert(c.general.port as nat == uint_or(ini_value(t@, "General"@, "port"@), 65535, 25565));
    assert(c.general.password@ == text_or(ini_value(t@, "General"@, "password"@), Seq::empty()));
    assert(c.master_server.enabled == bool_or(ini_value(t@, "MasterServer"@, "enabled"@), true));
    Ok(c)
}

/// Reads the client's connection settings from its INI text, as
/// `parse_server_config` does for the server.
pub fn parse_client_config(content: &str) -> (r: ConnectionConfig)
    ensures
        connection_config_of(content@, r),
{
    let t = chars_of(content);
    let mut keys: Vec<(Vec<char>, Vec<char>)> = Vec::new();
    assert(keys_view(keys@) =~= Seq::<(Seq<char>, Seq<char>)>::empty());
    push_key(&mut keys, "General", "destinationAddress");
    push_key(&mut keys, "General", "port");
    push_key(&mut keys, "General", "password");
    assert(keys_view(keys@).len() == keys@.len());
    let v = lookup_ini(t.as_slice(), &keys);
    proof {
        reveal_strlit("");
    }
    let c = ConnectionConfig {
        destination_address: text_field(&v[0], "localhost"),
        port: uint_field(&v[1], 65535, 25565) as u16,
        password: text_field(&v[2], ""),
    };
    assert(c.destination_address@ == text_or(
        ini_value(t@, "General"@, "destinationAddress"@),
        "localhost"@,
    ));
    assert(c.port as nat == uint_or(ini_value(t@, "General"@, "port"@), 65535, 25565));
    assert(c.password@ == text_or(ini_value(t@, "General"@, "password"@), Seq::empty()));
    c
}

fn push_edit(edits: &mut Vec<IniEdit>, s: &str, k: &str, v: Vec<char>)
    ensures
        edits_view(final(edits)@) == edits_view(old(edits)@).push((s@, k@, v@)),
{
    let e = (chars_of(s), chars_of(k), v);
    edits.push(e);
    assert(edits_view(edits@) =~= edits_view(old(edits)@).push((s@, k@, v@)));
}

fn push_text_edit(edits: &mut Vec<IniEdit>, s: &str, k: &str, v: &Option<String>)
    ensures
        edits_view(final(edits)@) == edits_view(old(edits)@) + opt_edit(s@, k@, opt_text(*v)),
{
    match v {
        Some(x) => {
            push_edit(edits, s, k, chars_of(x.as_str()));
        },
        None => {},
    }
    assert(edits_view(edits@) =~= edits_view(old(edits)@) + opt_edit(s@, k@, opt_text(*v)));
}

fn push_num_edit(edits: &mut Vec<IniEdit>, s: &str, k: &str, v: Option<u64>)
    ensures
        edits_view(final(edits)@) == edits_view(old(edits)@) + opt_edit(s@, k@, opt_num(v)),
{
    match v {
        Some(x) => {
            let mut d: Vec<char> = Vec::new();
            push_nat(&mut d, x);
            assert(d@ =~= nat_text(x as nat));
            push_edit(edits, s, k, d);
        },
        None => {},
    }
    assert(edits_view(edits@) =~= edits_view(old(edits)@) + opt_edit(s@, k@, opt_num(v)));
}

fn push_flag_edit(edits: &mut Vec<IniEdit>, s: &str, k: &str, v: Option<bool>)
    ensures
        edits_view(final(edits)@) == edits_view(old(edits)@) + opt_edit(s@, k@, opt_flag(v)),
{
    match v {
        Some(x) => {
            let w = if x { chars_of("true") } else { chars_of("false") };
            push_edit(edits, s, k, w);
        },
        None => {},
    }
    assert(edits_view(edits@) =~= edits_view(old(edits)@) + opt_edit(s@, k@, opt_flag(v)));
}

/// Sets the client's address, port and password in its INI text: each
/// `destinationAddress`, `port` and `password` line of `[General]` becomes
/// `key = value`; every other line stays as it is. Fails where no such line exists.
pub fn update_config_values(content: &str, ip: &str, port: u16, password: &str) -> (r: Result<
    String,
    ConfigError,
>)
    ensures
        result_view(r) == ini_update(content@, client_edits(ip@, port as nat, password@)),
{
    let t = chars_of(content);
    let mut edits: Vec<IniEdit> = Vec::new();
    assert(edits_view(edits@) =~= Seq::<(Seq<char>, Seq<char>, Seq<char>)>::empty());
    push_edit(&mut edits, "General", "destinationAddress", chars_of(ip));
    let mut d: Vec<char> = Vec::new();
    push_nat(&mut d, port as u64);
    assert(d@ =~= nat_text(port as nat));
    push_edit(&mut edits, "General", "port", d);
    push_edit(&mut edits, "General", "password", chars_of(password));
    assert(edits_view(edits@) =~= client_edits(ip@, port as nat, password@));
    match update_ini(t.as_slice(), &edits) {
        Ok(v) => Ok(string_of(v.as_slice())),
        Err(e) => Err(e),
    }
}

/// Applies a patch to the server's INI text: for each value the patch holds, the
/// lines of that key in its own section become `key = value`; every other line
/// stays as it is. Fails where no line was rewritten.
pub fn update_server_config_values(content: &str, config: &ServerConfigPatch) -> (r: Result<
    String,
    ConfigError,
>)
    ensures
        result_view(r) == ini_update(content@, server_edits(*config)),
{
    let t = chars_of(content);
    let mut edits: Vec<IniEdit> = Vec::new();
    assert(edits_view(edits@) =~= Seq::<(Seq<char>, Seq<char>, Seq<char>)>::empty());
    let g = &config.general;
    push_text_edit(&mut edits, "General", "localAddress", &g.local_address);
    push_num_edit(&mut edits, "General", "port", g.port);
    push_num_edit(&mut edits, "General", "maximumPlayers", g.maximum_players);
    push_text_edit(&mut edits, "General", "hostname", &g.hostname);
    push_num_edit(&mut edits, "General", "logLevel", g.log_level);
    push_text_edit(&mut edits, "General", "password", &g.password);
    push_text_edit(&mut edits, "Plugins", "home", &config.plugins.home);
    push_text_edit(&mut edits, "Plugins", "plugins", &config.plugins.plugins);
    let m = &config.master_server;
    push_flag_edit(&mut edits, "MasterServer", "enabled", m.enabled);
    push_text_edit(&mut edits, "MasterServer", "address", &m.address);
    push_num_edit(&mut edits, "MasterServer", "port", m.port);
    push_num_edit(&mut edits, "MasterServer", "rate", m.rate);
    assert(edits_view(edits@) =~= server_edits(*config));
    match update_ini(t.as_slice(), &edits) {
        Ok(v) => Ok(string_of(v.as_slice())),
        Err(e) => Err(e),
    }
}

} // verus!
