use vstd::prelude::*;
use crate::literal::Decimal;

verus! {

/// Whether the launcher runs the game as a player or hosts a server.
#[derive(Debug, Clone, Copy, PartialEq, Eq, Structural)]
pub enum Mode {
    Player,
    Server,
}

/// What a release check found: whether the release differs from the one
/// installed, its version and where to fetch it.
#[derive(Debug, Clone)]
pub struct UpdateCheckResponse {
    pub update_available: bool,
    pub version: String,
    pub url: Option<String>,
}

/// The launcher's own settings file.
#[derive(Debug, Clone)]
pub struct NerevarConfig {
    pub tes3mp_path: String,
    pub version: String,
    pub last_updated: String,
    pub mode: Option<Mode>,
}

/// The `[General]` section of the server's network settings.
#[derive(Debug, Clone)]
pub struct GeneralConfig {
    pub local_address: String,
    pub port: u16,
    pub maximum_players: u16,
    pub hostname: String,
    pub log_level: u8,
    pub password: String,
}

/// The `[Plugins]` section of the server's network settings.
#[derive(Debug, Clone)]
pub struct PluginsConfig {
    pub home: String,
    pub plugins: String,
}

/// The `[MasterServer]` section of the server's network settings.
#[derive(Debug, Clone)]
pub struct MasterServerConfig {
    pub enabled: bool,
    pub address: String,
    pub port: u16,
    pub rate: u32,
}

/// The server's network settings, as read from its INI file.
#[derive(Debug, Clone)]
pub struct Tes3MPServerConfig {
    pub general: GeneralConfig,
    pub plugins: PluginsConfig,
    pub master_server: MasterServerConfig,
}

/// The client's connection settings, as read from its INI file.
#[derive(Debug, Clone)]
pub struct ConnectionConfig {
    pub destination_address: String,
    pub port: u16,
    pub password: String,
}

/// New values for keys of `[General]`; `None` leaves a key as it is.
#[derive(Debug, Clone)]
pub struct GeneralPatch {
    pub local_address: Option<String>,
    pub port: Option<u64>,
    pub maximum_players: Option<u64>,
    pub hostname: Option<String>,
    pub log_level: Option<u64>,
    pub password: Option<String>,
}

/// New values for keys of `[Plugins]`; `None` leaves a key as it is.
#[derive(Debug, Clone)]
pub struct PluginsPatch {
    pub home: Option<String>,
    pub plugins: Option<String>,
}

/// New values for keys of `[MasterServer]`; `None` leaves a key as it is.
#[derive(Debug, Clone)]
pub struct MasterServerPatch {
    pub enabled: Option<bool>,
    pub address: Option<String>,
    pub port: Option<u64>,
    pub rate: Option<u64>,
}

/// New values for the server's network settings.
#[derive(Debug, Clone)]
pub struct ServerConfigPatch {
    pub general: GeneralPatch,
    pub plugins: PluginsPatch,
    pub master_server: MasterServerPatch,
}

/// The value of an entry of the game-settings table: a flag or a number.
#[derive(Debug, Clone)]
pub enum SettingValue {
    Flag(bool),
    Number(Decimal),
}

/// One `{ name = ..., value = ... }` entry of the game-settings table.
#[derive(Debug, Clone)]
pub struct GameSetting {
    pub name: String,
    pub value: SettingValue,
}

/// The in-game calendar that a new world starts from.
#[derive(Debug, Clone, Copy, PartialEq, Eq, Structural)]
pub struct DefaultTimeTable {
    pub year: i32,
    pub month: i32,
    pub day: i32,
    pub hour: i32,
    pub days_passed: i32,
    pub day_time_scale: i32,
    pub night_time_scale: i32,
}

/// The chat colours of the server's ranks.
#[derive(Debug, Clone)]
pub struct RankColors {
    pub server_owner: String,
    pub admin: String,
    pub moderator: String,
}

impl Default for RankColors {
    /// The colours that the server uses unless told otherwise.
    fn default() -> (r: RankColors)
        ensures
            r.server_owner@ == "Orange"@,
            r.admin@ == "Red"@,
            r.moderator@ == "Green"@,
    {
        RankColors {
            server_owner: String::from_str("Orange"),
            admin: String::from_str("Red"),
            moderator: String::from_str("Green"),
        }
    }
}

/// The gameplay settings of the server's Lua settings table.
#[derive(Debug, Clone)]
pub struct ConfigSettings {
    pub game_mode: String,
    pub login_time: i32,
    pub max_clients_per_ip: i32,
    pub difficulty: i32,
    pub pass_time_when_empty: bool,
    pub night_start_hour: i32,
    pub night_end_hour: i32,
    pub allow_console: bool,
    pub allow_bed_rest: bool,
    pub allow_wilderness_rest: bool,
    pub allow_wait: bool,
    pub share_journal: bool,
    pub share_faction_ranks: bool,
    pub share_faction_expulsion: bool,
    pub share_faction_reputation: bool,
    pub share_topics: bool,
    pub share_bounty: bool,
    pub share_reputation: bool,
    pub share_map_exploration: bool,
    pub share_videos: bool,
    pub use_instanced_spawn: bool,
    pub respawn_at_imperial_shrine: bool,
    pub respawn_at_tribunal_temple: bool,
    pub max_attribute_value: i32,
    pub max_speed_value: i32,
    pub max_skill_value: i32,
    pub max_acrobatics_value: i32,
    pub ignore_modifier_with_max_skill: bool,
    pub players_respawn: bool,
    pub death_time: i32,
    pub death_penalty_jail_days: i32,
    pub bounty_reset_on_death: bool,
    pub bounty_death_penalty: bool,
    pub allow_suicide_command: bool,
    pub allow_fixme_command: bool,
    pub fixme_interval: i32,
    pub ping_difference_required_for_authority: i32,
    pub enforced_log_level: i32,
    pub physics_framerate: i32,
    pub allow_on_container_for_unloaded_cells: bool,
    pub enable_player_collision: bool,
    pub enable_actor_collision: bool,
    pub enable_placed_object_collision: bool,
    pub use_actor_collision_for_placed_objects: bool,
    pub maximum_object_scale: Decimal,
    pub enforce_data_files: bool,
    pub game_settings: Vec<GameSetting>,
    pub default_time_table: DefaultTimeTable,
}

/// The server's Lua settings table.
#[derive(Debug, Clone)]
pub struct ServerSettings {
    pub config: ConfigSettings,
}

} // verus!
