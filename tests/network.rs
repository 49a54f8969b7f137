use nerevar::error::ConfigError;
use nerevar::network::{
    parse_client_config, parse_server_config, update_config_values, update_server_config_values,
};
use nerevar::types::{GeneralPatch, MasterServerPatch, PluginsPatch, ServerConfigPatch};

const SERVER_TEXT: &str = "# server settings\n[General]\nlocalAddress = 127.0.0.1\nport = 100\nmaximumPlayers = 8\nhostname = My server\nlogLevel = 3\npassword = secret\n\n[Plugins]\nhome = ./data\nplugins = a.lua,b.lua\n\n[MasterServer]\nenabled = false\naddress = example.org\nport = 200\nrate = 500\n";

fn empty_patch() -> ServerConfigPatch {
    ServerConfigPatch {
        general: GeneralPatch {
            local_address: None,
            port: None,
            maximum_players: None,
            hostname: None,
            log_level: None,
            password: None,
        },
        plugins: PluginsPatch { home: None, plugins: None },
        master_server: MasterServerPatch { enabled: None, address: None, port: None, rate: None },
    }
}

#[test]
fn server_config_reads_every_key() {
    let c = parse_server_config(SERVER_TEXT).unwrap();
    assert_eq!(c.general.local_address, "127.0.0.1");
    assert_eq!(c.general.port, 100);
    assert_eq!(c.general.maximum_players, 8);
    assert_eq!(c.general.hostname, "My server");
    assert_eq!(c.general.log_level, 3);
    assert_eq!(c.general.password, "secret");
    assert_eq!(c.plugins.home, "./data");
    assert_eq!(c.plugins.plugins, "a.lua,b.lua");
    assert!(!c.master_server.enabled);
    assert_eq!(c.master_server.address, "example.org");
    assert_eq!(c.master_server.port, 200);
    assert_eq!(c.master_server.rate, 500);
}

#[test]
fn empty_server_text_gives_defaults() {
    let c = parse_server_config("").unwrap();
    assert_eq!(c.general.local_address, "0.0.0.0");
    assert_eq!(c.general.port, 25565);
    assert_eq!(c.general.maximum_players, 64);
    assert_eq!(c.general.hostname, "TES3MP server");
    assert_eq!(c.general.log_level, 1);
    assert_eq!(c.general.password, "");
    assert_eq!(c.plugins.home, "./server");
    assert_eq!(c.plugins.plugins, "serverCore.lua");
    assert!(c.master_server.enabled);
    assert_eq!(c.master_server.address, "master.tes3mp.com");
    assert_eq!(c.master_server.port, 25561);
    assert_eq!(c.master_server.rate, 10000);
}

#[test]
fn keys_outside_their_section_or_unreadable_keep_defaults() {
    let text = "port = 1\n[Other]\nport = 2\n[General]\nport = abc\nlogLevel = 300\nunknown = 5\n";
    let c = parse_server_config(text).unwrap();
    assert_eq!(c.general.port, 25565);
    assert_eq!(c.general.log_level, 1);
    assert_eq!(c.master_server.port, 25561);
}

#[test]
fn last_line_of_a_key_wins() {
    let c = parse_server_config("[General]\nport = 1\nport = 2\n").unwrap();
    assert_eq!(c.general.port, 2);
}

#[test]
fn client_config_reads_and_defaults() {
    let c = parse_client_config("[General]\ndestinationAddress = 10.0.0.1\nport = 4000\n");
    assert_eq!(c.destination_address, "10.0.0.1");
    assert_eq!(c.port, 4000);
    assert_eq!(c.password, "");
    let d = parse_client_config("");
    assert_eq!(d.destination_address, "localhost");
    assert_eq!(d.port, 25565);
}

#[test]
fn client_update_rewrites_the_three_keys() {
    let text = "# client\n[General]\ndestinationAddress = localhost\nport = 25565\npassword =\nother = 1\n";
    let r = update_config_values(text, "1.2.3.4", 1234, "pw").unwrap();
    assert_eq!(
        r,
        "# client\n[General]\ndestinationAddress = 1.2.3.4\nport = 1234\npassword = pw\nother = 1\n"
    );
}

#[test]
fn client_update_without_keys_fails() {
    let r = update_config_values("[Other]\nport = 1\n", "a", 1, "b");
    assert_eq!(r, Err(ConfigError::NoMatchingKeys));
    assert_eq!(
        ConfigError::NoMatchingKeys.message(),
        "No matching configuration keys found to update"
    );
}

#[test]
fn client_update_keeps_carriage_returns() {
    let r = update_config_values("[General]\r\nport = 1\r\n", "a", 7, "b").unwrap();
    assert_eq!(r, "[General]\r\nport = 7\r\n");
}

#[test]
fn port_is_changed_only_in_its_section() {
    let text = "[General]\nport = 100\n[MasterServer]\nport = 200\n";
    let mut p = empty_patch();
    p.master_server.port = Some(300);
    let r = update_server_config_values(text, &p).unwrap();
    assert_eq!(r, "[General]\nport = 100\n[MasterServer]\nport = 300\n");
    let c = parse_server_config(&r).unwrap();
    assert_eq!(c.general.port, 100);
    assert_eq!(c.master_server.port, 300);
}

#[test]
fn update_of_one_key_leaves_other_lines() {
    let mut p = empty_patch();
    p.general.hostname = Some("New name".to_string());
    let r = update_server_config_values(SERVER_TEXT, &p).unwrap();
    let expected = SERVER_TEXT.replace("hostname = My server", "hostname = New name");
    assert_eq!(r, expected);
}

#[test]
fn writing_current_values_gives_the_text_back() {
    let c = parse_server_config(SERVER_TEXT).unwrap();
    let p = ServerConfigPatch {
        general: GeneralPatch {
            local_address: Some(c.general.local_address.clone()),
            port: Some(c.general.port as u64),
            maximum_players: Some(c.general.maximum_players as u64),
            hostname: Some(c.general.hostname.clone()),
            log_level: Some(c.general.log_level as u64),
            password: Some(c.general.password.clone()),
        },
        plugins: PluginsPatch {
            home: Some(c.plugins.home.clone()),
            plugins: Some(c.plugins.plugins.clone()),
        },
        master_server: MasterServerPatch {
            enabled: Some(c.master_server.enabled),
            address: Some(c.master_server.address.clone()),
            port: Some(c.master_server.port as u64),
            rate: Some(c.master_server.rate as u64),
        },
    };
    let r = update_server_config_values(SERVER_TEXT, &p).unwrap();
    assert_eq!(r, SERVER_TEXT);
}

#[test]
fn empty_patch_fails() {
    let r = update_server_config_values(SERVER_TEXT, &empty_patch());
    assert_eq!(r, Err(ConfigError::NoMatchingKeys));
}

#[test]
fn flag_is_written_as_a_word() {
    let mut p = empty_patch();
    p.master_server.enabled = Some(true);
    let r = update_server_config_values("[MasterServer]\nenabled = false", &p).unwrap();
    assert_eq!(r, "[MasterServer]\nenabled = true");
}
