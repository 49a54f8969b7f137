use vstd::prelude::*;
use crate::error::ConfigError;
use crate::ini::index_from;
use crate::literal::{Decimal, int_in, int_text, is_decimal, parse_i32, signed_value};
use crate::scan::{
    LitKind, assign_eq, close_from, first_lit, first_lit_exec, lemma_close_after, lemma_lit_start, lit_at,
    lit_end, occurs_at, occurs_at_exec, str_chain, str_chain_exec, close_exec, index_from_at,
};
use crate::text::{append_chars, chars_of, string_of};
use crate::types::{
    ConfigSettings, DefaultTimeTable, GameSetting, ServerSettings, SettingValue,
};

verus! {

/// The name under which the settings table assigns key `k`: `config.k`.
pub open spec fn setting_name(k: Seq<char>) -> Seq<char> {
    "config."@ + k
}

/// The integer that `t` first assigns to `config.k`, or `d` where it assigns
/// none; no value where that integer does not fit in 32 bits.
pub open spec fn int_setting(t: Seq<char>, k: Seq<char>, d: int) -> Option<int> {
    match first_lit(t, setting_name(k), LitKind::Int, 0, t.len() as int) {
        Some(sp) => int_in(signed_value(t.subrange(sp.0, sp.1)), i32::MIN as int, i32::MAX as int),
        None => Some(d),
    }
}

/// The flag that `t` first assigns to `config.k`, or `d` where it assigns none.
pub open spec fn bool_setting(t: Seq<char>, k: Seq<char>, d: bool) -> bool {
    match first_lit(t, setting_name(k), LitKind::Bool, 0, t.len() as int) {
        Some(sp) => occurs_at(t, "true"@, sp.0),
        None => d,
    }
}

/// The string (joined where it is a `..` chain) that `t` first assigns to
/// `config.k`, or `d` where it assigns none.
pub open spec fn str_setting(t: Seq<char>, k: Seq<char>, d: Seq<char>) -> Seq<char> {
    match first_lit(t, setting_name(k), LitKind::Str, 0, t.len() as int) {
        Some(sp) => str_chain(t, sp.0).unwrap().0,
        None => d,
    }
}

/// The number text that `t` first assigns to `config.k`, or `d` where it assigns
/// none; no value where that text is not a decimal number.
pub open spec fn num_setting(t: Seq<char>, k: Seq<char>, d: Seq<char>) -> Option<Seq<char>> {
    match first_lit(t, setting_name(k), LitKind::Num, 0, t.len() as int) {
        Some(sp) => if is_decimal(t.subrange(sp.0, sp.1)) {
            Some(t.subrange(sp.0, sp.1))
        } else {
            None
        },
        None => Some(d),
    }
}

/// A value of the game-settings table, as the contracts see it.
pub enum SettingView {
    Flag(bool),
    Number(Seq<char>),
}

impl View for SettingValue {
    type V = SettingView;

    open spec fn view(&self) -> SettingView {
        match self {
            SettingValue::Flag(b) => SettingView::Flag(*b),
            SettingValue::Number(d) => SettingView::Number(d@),
        }
    }
}

impl View for GameSetting {
    type V = (Seq<char>, SettingView);

    open spec fn view(&self) -> (Seq<char>, SettingView) {
        (self.name@, self.value@)
    }
}

/// The views of a list of game settings.
pub open spec fn settings_view(v: Seq<GameSetting>) -> Seq<(Seq<char>, SettingView)> {
    v.map_values(|g: GameSetting| g@)
}

/// The game setting that the entry `t[a..b]` describes: a `name` string and a
/// `value` flag or number. An entry without both has none.
pub open spec fn entry_setting(t: Seq<char>, a: int, b: int) -> Option<(Seq<char>, SettingView)> {
    match first_lit(t, "name"@, LitKind::Str, a, b) {
        Some(ns) => {
            let name = str_chain(t, ns.0).unwrap().0;
            match first_lit(t, "value"@, LitKind::Bool, a, b) {
                Some(vs) => Some((name, SettingView::Flag(occurs_at(t, "true"@, vs.0)))),
                None => match first_lit(t, "value"@, LitKind::Num, a, b) {
                    Some(vs) => if is_decimal(t.subrange(vs.0, vs.1)) {
                        Some((name, SettingView::Number(t.subrange(vs.0, vs.1))))
                    } else {
                        None
                    },
                    None => None,
                },
            }
        },
        None => None,
    }
}

/// The game settings of the `{ ... }` entries that start in `t[j..end]`.
pub open spec fn settings_from(t: Seq<char>, j: int, end: int) -> Seq<(Seq<char>, SettingView)>
    decreases end - j,
{
    if j < 0 || j >= end {
        Seq::empty()
    } else {
        let o = index_from(t, '{', j);
        if o < end {
            match close_from(t, o + 1, 1) {
                Some(c) => if j < c + 1 <= end {
                    match entry_setting(t, o + 1, c) {
                        Some(e) => seq![e] + settings_from(t, c + 1, end),
                        None => settings_from(t, c + 1, end),
                    }
                } else {
                    Seq::empty()
                },
                None => Seq::empty(),
            }
        } else {
            Seq::empty()
        }
    }
}

/// The game settings of the first table that `t` assigns to `config.gameSettings`.
pub open spec fn game_settings_of(t: Seq<char>) -> Seq<(Seq<char>, SettingView)> {
    match first_lit(t, setting_name("gameSettings"@), LitKind::Block, 0, t.len() as int) {
        Some(sp) => settings_from(t, sp.0 + 1, sp.1 - 1),
        None => Seq::empty(),
    }
}

/// The 32-bit integer that `t[a..b]` first assigns to `k`, or 0.
pub open spec fn table_field(t: Seq<char>, k: Seq<char>, a: int, b: int) -> int {
    match first_lit(t, k, LitKind::Int, a, b) {
        Some(sp) => match int_in(signed_value(t.subrange(sp.0, sp.1)), i32::MIN as int, i32::MAX as int) {
            Some(n) => n,
            None => 0,
        },
        None => 0,
    }
}

/// The first literal that `first_lit` finds is one.
pub proof fn lemma_first_lit(t: Seq<char>, p: Seq<char>, k: LitKind, i: int, end: int)
    requires
        0 <= i,
        end <= t.len(),
        first_lit(t, p, k, i, end) is Some,
    ensures
        lit_end(t, k, first_lit(t, p, k, i, end).unwrap().0) == Some(first_lit(t, p, k, i, end).unwrap().1),
        0 <= first_lit(t, p, k, i, end).unwrap().0 <= first_lit(t, p, k, i, end).unwrap().1 <= end,
    decreases end - i,
{
    if lit_at(t, p, k, i, end) is None {
        lemma_first_lit(t, p, k, i + 1, end);
    } else {
        let e = crate::scan::assign_eq(t, p, i)->0;
        crate::scan::lemma_skip_ws_ge(t, e + 1);
        lemma_lit_start(t, k, crate::scan::skip_ws(t, e + 1));
    }
}

fn setting_key(k: &str) -> (r: Vec<char>)
    ensures
        r@ == setting_name(k@),
{
    let mut p = chars_of("config.");
    let kc = chars_of(k);
    append_chars(&mut p, kc.as_slice());
    p
}

fn int_setting_exec(t: &[char], k: &str, d: i32) -> (r: Option<i32>)
    ensures
        match r {
            Some(x) => int_setting(t@, k@, d as int) == Some(x as int),
            None => int_setting(t@, k@, d as int) is None,
        },
{
    let p = setting_key(k);
    match first_lit_exec(t, p.as_slice(), LitKind::Int, 0, t.len()) {
        Some(sp) => parse_i32(t, sp.0, sp.1),
        None => Some(d),
    }
}

fn bool_setting_exec(t: &[char], k: &str, d: bool) -> (r: bool)
    ensures
        r == bool_setting(t@, k@, d),
{
    let p = setting_key(k);
    match first_lit_exec(t, p.as_slice(), LitKind::Bool, 0, t.len()) {
        Some(sp) => {
            let w = chars_of("true");
            occurs_at_exec(t, w.as_slice(), sp.0)
        },
        None => d,
    }
}

fn str_setting_exec(t: &[char], k: &str, d: &str) -> (r: String)
    ensures
        r@ == str_setting(t@, k@, d@),
{
    let p = setting_key(k);
    match first_lit_exec(t, p.as_slice(), LitKind::Str, 0, t.len()) {
        Some(sp) => {
            proof {
                lemma_first_lit(t@, p@, LitKind::Str, 0, t@.len() as int);
            }
            match str_chain_exec(t, sp.0) {
                Some(c) => string_of(c.0.as_slice()),
                None => String::from_str(d),
            }
        },
        None => String::from_str(d),
    }
}

fn num_setting_exec(t: &[char], k: &str, d: &str) -> (r: Option<Decimal>)
    requires
        crate::literal::is_decimal(d@),
    ensures
        match r {
            Some(x) => num_setting(t@, k@, d@) == Some(x@),
            None => num_setting(t@, k@, d@) is None,
        },
{
    let p = setting_key(k);
    match first_lit_exec(t, p.as_slice(), LitKind::Num, 0, t.len()) {
        Some(sp) => {
            let x = crate::text::copy_range(t, sp.0, sp.1);
            Decimal::from_chars(x.as_slice())
        },
        None => Decimal::from_text(d),
    }
}

/// The calendar of the first table that `t` assigns to `config.defaultTimeTable`;
/// all zero where it assigns none.
pub open spec fn time_table_of(t: Seq<char>, tt: DefaultTimeTable) -> bool {
    match first_lit(t, setting_name("defaultTimeTable"@), LitKind::Block, 0, t.len() as int) {
        Some(sp) => {
            &&& tt.year as int == table_field(t, "year"@, sp.0 + 1, sp.1 - 1)
            &&& tt.month as int == table_field(t, "month"@, sp.0 + 1, sp.1 - 1)
            &&& tt.day as int == table_field(t, "day"@, sp.0 + 1, sp.1 - 1)
            &&& tt.hour as int == table_field(t, "hour"@, sp.0 + 1, sp.1 - 1)
            &&& tt.days_passed as int == table_field(t, "daysPassed"@, sp.0 + 1, sp.1 - 1)
            &&& tt.day_time_scale as int == table_field(t, "dayTimeScale"@, sp.0 + 1, sp.1 - 1)
            &&& tt.night_time_scale as int == table_field(t, "nightTimeScale"@, sp.0 + 1, sp.1 - 1)
        },
        None => tt == DefaultTimeTable {
            year: 0,
            month: 0,
            day: 0,
            hour: 0,
            days_passed: 0,
            day_time_scale: 0,
            night_time_scale: 0,
        },
    }
}

/// A table literal spans its braces.
proof fn lemma_block(t: Seq<char>, v: int, x: int)
    requires
        0 <= v,
        lit_end(t, LitKind::Block, v) == Some(x),
    ensures
        v + 1 <= x - 1 < t.len(),
{
    lemma_close_after(t, v + 1, 1);
}

fn entry_setting_exec(t: &[char], a: usize, b: usize) -> (r: Option<GameSetting>)
    requires
        a <= b <= t@.len(),
    ensures
        match r {
            Some(g) => entry_setting(t@, a as int, b as int) == Some(g@),
            None => entry_setting(t@, a as int, b as int) is None,
        },
{
    let name_key = chars_of("name");
    let value_key = chars_of("value");
    match first_lit_exec(t, name_key.as_slice(), LitKind::Str, a, b) {
        Some(ns) => {
            proof {
                lemma_first_lit(t@, name_key@, LitKind::Str, a as int, b as int);
            }
            match str_chain_exec(t, ns.0) {
                Some(c) => {
                    let name = string_of(c.0.as_slice());
                    match first_lit_exec(t, value_key.as_slice(), LitKind::Bool, a, b) {
                        Some(vs) => {
                            let w = chars_of("true");
                            let f = occurs_at_exec(t, w.as_slice(), vs.0);
                            Some(GameSetting { name, value: SettingValue::Flag(f) })
                        },
                        None => match first_lit_exec(t, value_key.as_slice(), LitKind::Num, a, b) {
                            Some(vs) => {
                                let x = crate::text::copy_range(t, vs.0, vs.1);
                                match Decimal::from_chars(x.as_slice()) {
                                    Some(d) => Some(GameSetting { name, value: SettingValue::Number(d) }),
                                    None => None,
                                }
                            },
                            None => None,
                        },
                    }
                },
                None => None,
            }
        },
        None => None,
    }
}

fn game_settings_exec(t: &[char]) -> (r: Vec<GameSetting>)
    ensures
        settings_view(r@) == game_settings_of(t@),
{
    let p = setting_key("gameSettings");
    let mut out: Vec<GameSetting> = Vec::new();
    match first_lit_exec(t, p.as_slice(), LitKind::Block, 0, t.len()) {
        Some(sp) => {
            proof {
                lemma_first_lit(t@, p@, LitKind::Block, 0, t@.len() as int);
                lemma_block(t@, sp.0 as int, sp.1 as int);
            }
            let end = sp.1 - 1;
            let tl = t.len();
            let mut j = sp.0 + 1;
            assert(settings_view(out@) =~= Seq::<(Seq<char>, SettingView)>::empty());
            while j < end
                invariant
                    sp.0 + 1 <= j,
                    end < t@.len(),
                    tl == t@.len(),
                    settings_view(out@) + settings_from(t@, j as int, end as int) == settings_from(
                        t@,
                        sp.0 + 1,
                        end as int,
                    ),
                ensures
                    settings_view(out@) == settings_from(t@, sp.0 + 1, end as int),
                decreases end - j,
            {
                let o = index_from_at(t, '{', j);
                if o >= end {
                    assert(settings_view(out@) =~= settings_view(out@) + Seq::<(Seq<char>, SettingView)>::empty());
                    break;
                }
                match close_exec(t, o + 1) {
                    Some(c) => {
                        if j < c + 1 && c + 1 <= end {
                            let ghost before = settings_view(out@);
                            match entry_setting_exec(t, o + 1, c) {
                                Some(g) => {
                                    out.push(g);
                                    assert(settings_view(out@) =~= before + seq![g@]);
                                },
                                None => {},
                            }
                            j = c + 1;
                        } else {
                            assert(settings_view(out@) =~= settings_view(out@) + Seq::<(Seq<char>, SettingView)>::empty());
                            break;
                        }
                    },
                    None => {
                        assert(settings_view(out@) =~= settings_view(out@) + Seq::<(Seq<char>, SettingView)>::empty());
                        break;
                    },
                }
            }
            out
        },
        None => {
            assert(settings_view(out@) =~= Seq::<(Seq<char>, SettingView)>::empty());
            out
        },
    }
}

fn table_field_exec(t: &[char], k: &str, a: usize, b: usize) -> (r: i32)
    requires
        a <= b <= t@.len(),
    ensures
        r as int == table_field(t@, k@, a as int, b as int),
{
    let kc = chars_of(k);
    match first_lit_exec(t, kc.as_slice(), LitKind::Int, a, b) {
        Some(sp) => match parse_i32(t, sp.0, sp.1) {
            Some(n) => n,
            None => 0,
        },
        None => 0,
    }
}

fn time_table_exec(t: &[char]) -> (r: DefaultTimeTable)
    ensures
        time_table_of(t@, r),
{
    let p = setting_key("defaultTimeTable");
    match first_lit_exec(t, p.as_slice(), LitKind::Block, 0, t.len()) {
        Some(sp) => {
            proof {
                lemma_first_lit(t@, p@, LitKind::Block, 0, t@.len() as int);
                lemma_block(t@, sp.0 as int, sp.1 as int);
            }
            let a = sp.0 + 1;
            let b = sp.1 - 1;
            DefaultTimeTable {
                year: table_field_exec(t, "year", a, b),
                month: table_field_exec(t, "month", a, b),
                day: table_field_exec(t, "day", a, b),
                hour: table_field_exec(t, "hour", a, b),
                days_passed: table_field_exec(t, "daysPassed", a, b),
                day_time_scale: table_field_exec(t, "dayTimeScale", a, b),
                night_time_scale: table_field_exec(t, "nightTimeScale", a, b),
            }
        },
        None => DefaultTimeTable {
            year: 0,
            month: 0,
            day: 0,
            hour: 0,
            days_passed: 0,
            day_time_scale: 0,
            night_time_scale: 0,
        },
    }
}

/// Every integer that `t` assigns to a known key fits in 32 bits, and every
/// number text it assigns to one is a decimal number.
pub open spec fn settings_ok(t: Seq<char>) -> bool {
    int_setting(t, "loginTime"@, 60) is Some
    && int_setting(t, "maxClientsPerIP"@, 3) is Some
    && int_setting(t, "difficulty"@, 0) is Some
    && int_setting(t, "nightStartHour"@, 20) is Some
    && int_setting(t, "nightEndHour"@, 6) is Some
    && int_setting(t, "maxAttributeValue"@, 200) is Some
    && int_setting(t, "maxSpeedValue"@, 365) is Some
    && int_setting(t, "maxSkillValue"@, 200) is Some
    && int_setting(t, "maxAcrobaticsValue"@, 1200) is Some
    && int_setting(t, "deathTime"@, 5) is Some
    && int_setting(t, "deathPenaltyJailDays"@, 5) is Some
    && int_setting(t, "fixmeInterval"@, 30) is Some
    && int_setting(t, "pingDifferenceRequiredForAuthority"@, 40) is Some
    && int_setting(t, "enforcedLogLevel"@, -1) is Some
    && int_setting(t, "physicsFramerate"@, 60) is Some
    && num_setting(t, "maximumObjectScale"@, "20.0"@) is Some
}

/// `c` holds what the settings text `t` assigns, each key that it does not
/// assign at its default.
pub open spec fn settings_of(t: Seq<char>, c: ConfigSettings) -> bool {
    &&& c.game_mode@ == str_setting(t, "gameMode"@, "Default"@)
    &&& int_setting(t, "loginTime"@, 60) == Some(c.login_time as int)
    &&& int_setting(t, "maxClientsPerIP"@, 3) == Some(c.max_clients_per_ip as int)
    &&& int_setting(t, "difficulty"@, 0) == Some(c.difficulty as int)
    &&& c.pass_time_when_empty == bool_setting(t, "passTimeWhenEmpty"@, false)
    &&& int_setting(t, "nightStartHour"@, 20) == Some(c.night_start_hour as int)
    &&& int_setting(t, "nightEndHour"@, 6) == Some(c.night_end_hour as int)
    &&& c.allow_console == bool_setting(t, "allowConsole"@, false)
    &&& c.allow_bed_rest == bool_setting(t, "allowBedRest"@, true)
    &&& c.allow_wilderness_rest == bool_setting(t, "allowWildernessRest"@, true)
    &&& c.allow_wait == bool_setting(t, "allowWait"@, true)
    &&& c.share_journal == bool_setting(t, "shareJournal"@, true)
    &&& c.share_faction_ranks == bool_setting(t, "shareFactionRanks"@, true)
    &&& c.share_faction_expulsion == bool_setting(t, "shareFactionExpulsion"@, false)
    &&& c.share_faction_reputation == bool_setting(t, "shareFactionReputation"@, true)
    &&& c.share_topics == bool_setting(t, "shareTopics"@, true)
    &&& c.share_bounty == bool_setting(t, "shareBounty"@, false)
    &&& c.share_reputation == bool_setting(t, "shareReputation"@, true)
    &&& c.share_map_exploration == bool_setting(t, "shareMapExploration"@, false)
    &&& c.share_videos == bool_setting(t, "shareVideos"@, true)
    &&& c.use_instanced_spawn == bool_setting(t, "useInstancedSpawn"@, true)
    &&& c.respawn_at_imperial_shrine == bool_setting(t, "respawnAtImperialShrine"@, true)
    &&& c.respawn_at_tribunal_temple == bool_setting(t, "respawnAtTribunalTemple"@, true)
    &&& int_setting(t, "maxAttributeValue"@, 200) == Some(c.max_attribute_value as int)
    &&& int_setting(t, "maxSpeedValue"@, 365) == Some(c.max_speed_value as int)
    &&& int_setting(t, "maxSkillValue"@, 200) == Some(c.max_skill_value as int)
    &&& int_setting(t, "maxAcrobaticsValue"@, 1200) == Some(c.max_acrobatics_value as int)
    &&& c.ignore_modifier_with_max_skill == bool_setting(t, "ignoreModifierWithMaxSkill"@, false)
    &&& c.players_respawn == bool_setting(t, "playersRespawn"@, true)
    &&& int_setting(t, "deathTime"@, 5) == Some(c.death_time as int)
    &&& int_setting(t, "deathPenaltyJailDays"@, 5) == Some(c.death_penalty_jail_days as int)
    &&& c.bounty_reset_on_death == bool_setting(t, "bountyResetOnDeath"@, false)
    &&& c.bounty_death_penalty == bool_setting(t, "bountyDeathPenalty"@, false)
    &&& c.allow_suicide_command == bool_setting(t, "allowSuicideCommand"@, true)
    &&& c.allow_fixme_command == bool_setting(t, "allowFixmeCommand"@, true)
    &&& int_setting(t, "fixmeInterval"@, 30) == Some(c.fixme_interval as int)
    &&& int_setting(t, "pingDifferenceRequiredForAuthority"@, 40) == Some(c.ping_difference_required_for_authority as int)
    &&& int_setting(t, "enforcedLogLevel"@, -1) == Some(c.enforced_log_level as int)
    &&& int_setting(t, "physicsFramerate"@, 60) == Some(c.physics_framerate as int)
    &&& c.allow_on_container_for_unloaded_cells == bool_setting(t, "allowOnContainerForUnloadedCells"@, false)
    &&& c.enable_player_collision == bool_setting(t, "enablePlayerCollision"@, true)
    &&& c.enable_actor_collision == bool_setting(t, "enableActorCollision"@, true)
    &&& c.enable_placed_object_collision == bool_setting(t, "enablePlacedObjectCollision"@, false)
    &&& c.use_actor_collision_for_placed_objects == bool_setting(t, "useActorCollisionForPlacedObjects"@, false)
    &&& num_setting(t, "maximumObjectScale"@, "20.0"@) == Some(c.maximum_object_scale@)
    &&& c.enforce_data_files == bool_setting(t, "enforceDataFiles"@, true)
    &&& settings_view(c.game_settings@) == game_settings_of(t)
    &&& time_table_of(t, c.default_time_table)
}

/// `c` holds the default of every setting.
pub open spec fn is_default_settings(c: ConfigSettings) -> bool {
    &&& c.game_mode@ == "Default"@
    &&& c.login_time == 60
    &&& c.max_clients_per_ip == 3
    &&& c.difficulty == 0
    &&& c.pass_time_when_empty == false
    &&& c.night_start_hour == 20
    &&& c.night_end_hour == 6
    &&& c.allow_console == false
    &&& c.allow_bed_rest == true
    &&& c.allow_wilderness_rest == true
    &&& c.allow_wait == true
    &&& c.share_journal == true
    &&& c.share_faction_ranks == true
    &&& c.share_faction_expulsion == false
    &&& c.share_faction_reputation == true
    &&& c.share_topics == true
    &&& c.share_bounty == false
    &&& c.share_reputation == true
    &&& c.share_map_exploration == false
    &&& c.share_videos == true
    &&& c.use_instanced_spawn == true
    &&& c.respawn_at_imperial_shrine == true
    &&& c.respawn_at_tribunal_temple == true
    &&& c.max_attribute_value == 200
    &&& c.max_speed_value == 365
    &&& c.max_skill_value == 200
    &&& c.max_acrobatics_value == 1200
    &&& c.ignore_modifier_with_max_skill == false
    &&& c.players_respawn == true
    &&& c.death_time == 5
    &&& c.death_penalty_jail_days == 5
    &&& c.bounty_reset_on_death == false
    &&& c.bounty_death_penalty == false
    &&& c.allow_suicide_command == true
    &&& c.allow_fixme_command == true
    &&& c.fixme_interval == 30
    &&& c.ping_difference_required_for_authority == 40
    &&& c.enforced_log_level == -1
    &&& c.physics_framerate == 60
    &&& c.allow_on_container_for_unloaded_cells == false
    &&& c.enable_player_collision == true
    &&& c.enable_actor_collision == true
    &&& c.enable_placed_object_collision == false
    &&& c.use_actor_collision_for_placed_objects == false
    &&& c.maximum_object_scale@ == "20.0"@
    &&& c.enforce_data_files == true
    &&& c.game_settings@.len() == 0
    &&& c.default_time_table == (DefaultTimeTable { year: 0, month: 0, day: 0, hour: 0, days_passed: 0, day_time_scale: 0, night_time_scale: 0 })
}

/// Reads the gameplay settings from the server's Lua settings text. Each key is
/// found by searching the whole text for the first `config.key = value` whose
/// value has the key's type; a key that is not found keeps its default. A
/// `..` chain of strings is joined. Fails where an integer found does not fit in
/// 32 bits, or a number found is not a decimal number.
pub fn parse_server_settings(content: &str) -> (r: Result<ServerSettings, ConfigError>)
    ensures
        r is Ok <==> settings_ok(content@),
        r is Ok ==> settings_of(content@, r->Ok_0.config),
        r is Err ==> r->Err_0 == ConfigError::InvalidNumber,
{
    let t = chars_of(content);
    let t = t.as_slice();
    let game_mode = str_setting_exec(t, "gameMode", "Default");
    let login_time = match int_setting_exec(t, "loginTime", 60) {
        Some(v) => v,
        None => return Err(ConfigError::InvalidNumber),
    };
    let max_clients_per_ip = match int_setting_exec(t, "maxClientsPerIP", 3) {
        Some(v) => v,
        None => return Err(ConfigError::InvalidNumber),
    };
    let difficulty = match int_setting_exec(t, "difficulty", 0) {
        Some(v) => v,
        None => return Err(ConfigError::InvalidNumber),
    };
    let pass_time_when_empty = bool_setting_exec(t, "passTimeWhenEmpty", false);
    let night_start_hour = match int_setting_exec(t, "nightStartHour", 20) {
        Some(v) => v,
        None => return Err(ConfigError::InvalidNumber),
    };
    let night_end_hour = match int_setting_exec(t, "nightEndHour", 6) {
        Some(v) => v,
        None => return Err(ConfigError::InvalidNumber),
    };
    let allow_console = bool_setting_exec(t, "allowConsole", false);
    let allow_bed_rest = bool_setting_exec(t, "allowBedRest", true);
    let allow_wilderness_rest = bool_setting_exec(t, "allowWildernessRest", true);
    let allow_wait = bool_setting_exec(t, "allowWait", true);
    let share_journal = bool_setting_exec(t, "shareJournal", true);
    let share_faction_ranks = bool_setting_exec(t, "shareFactionRanks", true);
    let share_faction_expulsion = bool_setting_exec(t, "shareFactionExpulsion", false);
    let share_faction_reputation = bool_setting_exec(t, "shareFactionReputation", true);
    let share_topics = bool_setting_exec(t, "shareTopics", true);
    let share_bounty = bool_setting_exec(t, "shareBounty", false);
    let share_reputation = bool_setting_exec(t, "shareReputation", true);
    let share_map_exploration = bool_setting_exec(t, "shareMapExploration", false);
    let share_videos = bool_setting_exec(t, "shareVideos", true);
    let use_instanced_spawn = bool_setting_exec(t, "useInstancedSpawn", true);
    let respawn_at_imperial_shrine = bool_setting_exec(t, "respawnAtImperialShrine", true);
    let respawn_at_tribunal_temple = bool_setting_exec(t, "respawnAtTribunalTemple", true);
    let max_attribute_value = match int_setting_exec(t, "maxAttributeValue", 200) {
        Some(v) => v,
        None => return Err(ConfigError::InvalidNumber),
    };
    let max_speed_value = match int_setting_exec(t, "maxSpeedValue", 365) {
        Some(v) => v,
        None => return Err(ConfigError::InvalidNumber),
    };
    let max_skill_value = match int_setting_exec(t, "maxSkillValue", 200) {
        Some(v) => v,
        None => return Err(ConfigError::InvalidNumber),
    };
    let max_acrobatics_value = match int_setting_exec(t, "maxAcrobaticsValue", 1200) {
        Some(v) => v,
        None => return Err(ConfigError::InvalidNumber),
    };
    let ignore_modifier_with_max_skill = bool_setting_exec(t, "ignoreModifierWithMaxSkill", false);
    let players_respawn = bool_setting_exec(t, "playersRespawn", true);
    let death_time = match int_setting_exec(t, "deathTime", 5) {
        Some(v) => v,
        None => return Err(ConfigError::InvalidNumber),
    };
    let death_penalty_jail_days = match int_setting_exec(t, "deathPenaltyJailDays", 5) {
        Some(v) => v,
        None => return Err(ConfigError::InvalidNumber),
    };
    let bounty_reset_on_death = bool_setting_exec(t, "bountyResetOnDeath", false);
    let bounty_death_penalty = bool_setting_exec(t, "bountyDeathPenalty", false);
    let allow_suicide_command = bool_setting_exec(t, "allowSuicideCommand", true);
    let allow_fixme_command = bool_setting_exec(t, "allowFixmeCommand", true);
    let fixme_interval = match int_setting_exec(t, "fixmeInterval", 30) {
        Some(v) => v,
        None => return Err(ConfigError::InvalidNumber),
    };
    let ping_difference_required_for_authority = match int_setting_exec(t, "pingDifferenceRequiredForAuthority", 40) {
        Some(v) => v,
        None => return Err(ConfigError::InvalidNumber),
    };
    let enforced_log_level = match int_setting_exec(t, "enforcedLogLevel", -1) {
        Some(v) => v,
        None => return Err(ConfigError::InvalidNumber),
    };
    let physics_framerate = match int_setting_exec(t, "physicsFramerate", 60) {
        Some(v) => v,
        None => return Err(ConfigError::InvalidNumber),
    };
    let allow_on_container_for_unloaded_cells = bool_setting_exec(t, "allowOnContainerForUnloadedCells", false);
    let enable_player_collision = bool_setting_exec(t, "enablePlayerCollision", true);
    let enable_actor_collision = bool_setting_exec(t, "enableActorCollision", true);
    let enable_placed_object_collision = bool_setting_exec(t, "enablePlacedObjectCollision", false);
    let use_actor_collision_for_placed_objects = bool_setting_exec(t, "useActorCollisionForPlacedObjects", false);
    proof {
        lemma_default_scale();
    }
    let maximum_object_scale = match num_setting_exec(t, "maximumObjectScale", "20.0") {
        Some(v) => v,
        None => return Err(ConfigError::InvalidNumber),
    };
    let enforce_data_files = bool_setting_exec(t, "enforceDataFiles", true);
    let game_settings = game_settings_exec(t);
    let default_time_table = time_table_exec(t);
    let config = ConfigSettings {
        game_mode,
        login_time,
        max_clients_per_ip,
        difficulty,
        pass_time_when_empty,
        night_start_hour,
        night_end_hour,
        allow_console,
        allow_bed_rest,
        allow_wilderness_rest,
        allow_wait,
        share_journal,
        share_faction_ranks,
        share_faction_expulsion,
        share_faction_reputation,
        share_topics,
        share_bounty,
        share_reputation,
        share_map_exploration,
        share_videos,
        use_instanced_spawn,
        respawn_at_imperial_shrine,
        respawn_at_tribunal_temple,
        max_attribute_value,
        max_speed_value,
        max_skill_value,
        max_acrobatics_value,
        ignore_modifier_with_max_skill,
        players_respawn,
        death_time,
        death_penalty_jail_days,
        bounty_reset_on_death,
        bounty_death_penalty,
        allow_suicide_command,
        allow_fixme_command,
        fixme_interval,
        ping_difference_required_for_authority,
        enforced_log_level,
        physics_framerate,
        allow_on_container_for_unloaded_cells,
        enable_player_collision,
        enable_actor_collision,
        enable_placed_object_collision,
        use_actor_collision_for_placed_objects,
        maximum_object_scale,
        enforce_data_files,
        game_settings,
        default_time_table,
    };
    Ok(ServerSettings { config })
}

/// The default object scale is a decimal number.
proof fn lemma_default_scale()
    ensures
        is_decimal("20.0"@),
{
    reveal_strlit("20.0");
    let b = crate::literal::unsigned_part("20.0"@);
    assert(b == "20.0"@);
    assert(crate::literal::is_digit(b[0]));
    assert forall|i: int, j: int|
        0 <= i < b.len() && 0 <= j < b.len() && #[trigger] b[i] == '.' && #[trigger] b[j] == '.'
            implies i == j by {
        assert(i == 2 && j == 2);
    }
}

impl Default for ConfigSettings {
    /// Every setting at its default.
    fn default() -> (r: ConfigSettings)
        ensures
            is_default_settings(r),
    {
        proof {
            lemma_default_scale();
        }
        let scale = Decimal::from_text("20.0").unwrap();
        let r = ConfigSettings {
            game_mode: String::from_str("Default"),
            login_time: 60,
            max_clients_per_ip: 3,
            difficulty: 0,
            pass_time_when_empty: false,
            night_start_hour: 20,
            night_end_hour: 6,
            allow_console: false,
            allow_bed_rest: true,
            allow_wilderness_rest: true,
            allow_wait: true,
            share_journal: true,
            share_faction_ranks: true,
            share_faction_expulsion: false,
            share_faction_reputation: true,
            share_topics: true,
            share_bounty: false,
            share_reputation: true,
            share_map_exploration: false,
            share_videos: true,
            use_instanced_spawn: true,
            respawn_at_imperial_shrine: true,
            respawn_at_tribunal_temple: true,
            max_attribute_value: 200,
            max_speed_value: 365,
            max_skill_value: 200,
            max_acrobatics_value: 1200,
            ignore_modifier_with_max_skill: false,
            players_respawn: true,
            death_time: 5,
            death_penalty_jail_days: 5,
            bounty_reset_on_death: false,
            bounty_death_penalty: false,
            allow_suicide_command: true,
            allow_fixme_command: true,
            fixme_interval: 30,
            ping_difference_required_for_authority: 40,
            enforced_log_level: -1,
            physics_framerate: 60,
            allow_on_container_for_unloaded_cells: false,
            enable_player_collision: true,
            enable_actor_collision: true,
            enable_placed_object_collision: false,
            use_actor_collision_for_placed_objects: false,
            maximum_object_scale: scale,
            enforce_data_files: true,
            game_settings: Vec::new(),
            default_time_table: DefaultTimeTable { year: 0, month: 0, day: 0, hour: 0, days_passed: 0, day_time_scale: 0, night_time_scale: 0 },
        };
        r
    }
}

/// The statement `config.k = v`.
pub open spec fn assignment_line(k: Seq<char>, v: Seq<char>) -> Seq<char> {
    setting_name(k) + seq![' ', '=', ' '] + v
}

/// `t[i..]` with each assignment to the name `p` replaced, from the name to the
/// end of the line of its `=`, by `line`.
pub open spec fn replace_from(t: Seq<char>, p: Seq<char>, line: Seq<char>, i: int) -> Seq<char>
    decreases t.len() - i,
{
    if i < 0 || i >= t.len() {
        Seq::empty()
    } else {
        match assign_eq(t, p, i) {
            Some(e) => {
                let n = index_from(t, '\n', e);
                if i < n <= t.len() {
                    line + replace_from(t, p, line, n)
                } else {
                    Seq::empty()
                }
            },
            None => seq![t[i]] + replace_from(t, p, line, i + 1),
        }
    }
}

/// `t` assigns to the name `p` somewhere.
pub open spec fn has_assignment(t: Seq<char>, p: Seq<char>) -> bool {
    exists|i: int| 0 <= i < t.len() && (#[trigger] assign_eq(t, p, i)) is Some
}

/// The last index at or before `i` where `p` occurs in `t`.
pub open spec fn rfind(t: Seq<char>, p: Seq<char>, i: int) -> Option<int>
    decreases i + 1,
{
    if i < 0 {
        None
    } else if occurs_at(t, p, i) {
        Some(i)
    } else {
        rfind(t, p, i - 1)
    }
}

/// Where a new statement goes: before the last `return config`, or at the end.
pub open spec fn insert_point(t: Seq<char>) -> int {
    match rfind(t, "return config"@, t.len() as int) {
        Some(q) => q,
        None => t.len() as int,
    }
}

/// `t` with `config.k` set to the value text `v`: every assignment to it
/// rewritten, or, where there is none, a new line inserted before the last
/// `return config`.
pub open spec fn set_value(t: Seq<char>, k: Seq<char>, v: Seq<char>) -> Seq<char> {
    if has_assignment(t, setting_name(k)) {
        replace_from(t, setting_name(k), assignment_line(k, v), 0)
    } else {
        let q = insert_point(t);
        t.subrange(0, q) + seq!['\n'] + assignment_line(k, v) + seq!['\n'] + t.subrange(
            q,
            t.len() as int,
        )
    }
}

/// `t` with each (key, value text) of `items` set in turn.
pub open spec fn apply_values(t: Seq<char>, items: Seq<(Seq<char>, Seq<char>)>) -> Seq<char>
    decreases items.len(),
{
    if items.len() == 0 {
        t
    } else {
        apply_values(set_value(t, items[0].0, items[0].1), items.drop_first())
    }
}

/// What `rfind` finds lies at or before where the search started, and matches.
pub proof fn lemma_rfind_bound(t: Seq<char>, p: Seq<char>, i: int)
    ensures
        rfind(t, p, i) is Some ==> 0 <= rfind(t, p, i)->0 <= i && occurs_at(t, p, rfind(t, p, i)->0),
    decreases i + 1,
{
    if i >= 0 && !occurs_at(t, p, i) {
        lemma_rfind_bound(t, p, i - 1);
    }
}

fn set_value_chars(t: &[char], k: &[char], v: &[char]) -> (r: Vec<char>)
    ensures
        r@ == set_value(t@, k@, v@),
{
    let mut p = chars_of("config.");
    append_chars(&mut p, k);
    let mut line = crate::text::copy_range(p.as_slice(), 0, p.len());
    assert(p@.subrange(0, p@.len() as int) =~= p@);
    line.push(' ');
    line.push('=');
    line.push(' ');
    append_chars(&mut line, v);
    assert(line@ =~= assignment_line(k@, v@));
    let ghost pv = setting_name(k@);
    assert(p@ == pv);
    proof {
        reveal_strlit("config.");
    }
    let tl = t.len();
    let mut out: Vec<char> = Vec::new();
    let mut found = false;
    let mut i: usize = 0;
    while i < tl
        invariant
            tl == t@.len(),
            i <= tl,
            p@ == pv,
            pv.len() > 0,
            out@ + replace_from(t@, pv, line@, i as int) == replace_from(t@, pv, line@, 0),
            found ==> has_assignment(t@, pv),
            !found ==> forall|j: int| 0 <= j < i ==> (#[trigger] assign_eq(t@, pv, j)) is None,
        decreases tl - i,
    {
        let ghost before = out@;
        match crate::scan::assign_eq_exec(t, p.as_slice(), i) {
            Some(e) => {
                let n = index_from_at(t, '\n', e);
                crate::text::append_chars(&mut out, line.as_slice());
                assert(out@ + replace_from(t@, pv, line@, n as int) =~= before + replace_from(
                    t@,
                    pv,
                    line@,
                    i as int,
                ));
                found = true;
                i = n;
            },
            None => {
                out.push(t[i]);
                assert(out@ + replace_from(t@, pv, line@, i + 1) =~= before + replace_from(
                    t@,
                    pv,
                    line@,
                    i as int,
                ));
                i = i + 1;
            },
        }
    }
    if found {
        assert(out@ =~= out@ + replace_from(t@, pv, line@, i as int));
        return out;
    }
    let pat = chars_of("return config");
    let mut at: Option<usize> = None;
    let mut j: usize = 0;
    while j < tl
        invariant
            tl == t@.len(),
            j <= tl,
            (match at {
                Some(x) => Some(x as int),
                None => None,
            }) == rfind(t@, pat@, j - 1),
        decreases tl - j,
    {
        if occurs_at_exec(t, pat.as_slice(), j) {
            at = Some(j);
        }
        j = j + 1;
    }
    if occurs_at_exec(t, pat.as_slice(), tl) {
        at = Some(tl);
    }
    let ins = match at {
        Some(x) => x,
        None => tl,
    };
    proof {
        lemma_rfind_bound(t@, pat@, tl as int);
        reveal_strlit("return config");
    }
    assert(ins as int == insert_point(t@));
    let mut res = crate::text::copy_range(t, 0, ins);
    res.push('\n');
    append_chars(&mut res, line.as_slice());
    res.push('\n');
    let rest = crate::text::copy_range(t, ins, tl);
    append_chars(&mut res, rest.as_slice());
    res
}

/// Sets `config.key` to the value text `value` in the Lua settings text: every
/// assignment to it becomes `config.key = value` up to the end of its line; where
/// there is none, the statement is added on a line of its own before the last
/// `return config` (at the end where there is none).
pub fn set_setting_value(content: &str, key: &str, value: &str) -> (r: String)
    ensures
        r@ == set_value(content@, key@, value@),
{
    let t = chars_of(content);
    let k = chars_of(key);
    let v = chars_of(value);
    let r = set_value_chars(t.as_slice(), k.as_slice(), v.as_slice());
    string_of(r.as_slice())
}

/// `s` between double quotes.
pub open spec fn quoted(s: Seq<char>) -> Seq<char> {
    seq!['"'] + s + seq!['"']
}

fn push_int(out: &mut Vec<char>, n: i32)
    ensures
        final(out)@ == old(out)@ + int_text(n as int),
{
    if n < 0 {
        out.push('-');
        crate::literal::push_nat(out, (-(n as i64)) as u64);
    } else {
        crate::literal::push_nat(out, n as u64);
    }
    assert(final(out)@ =~= old(out)@ + int_text(n as int));
}

fn push_item(items: &mut Vec<(Vec<char>, Vec<char>)>, k: &str, v: Vec<char>)
    ensures
        crate::ini::keys_view(final(items)@) == crate::ini::keys_view(old(items)@).push((k@, v@)),
{
    let e = (chars_of(k), v);
    items.push(e);
    assert(crate::ini::keys_view(items@) =~= crate::ini::keys_view(old(items)@).push((k@, v@)));
}

fn int_item(items: &mut Vec<(Vec<char>, Vec<char>)>, k: &str, n: i32)
    ensures
        crate::ini::keys_view(final(items)@) == crate::ini::keys_view(old(items)@).push((k@, int_text(n as int))),
{
    let mut d: Vec<char> = Vec::new();
    push_int(&mut d, n);
    assert(d@ =~= int_text(n as int));
    push_item(items, k, d);
}

fn bool_item(items: &mut Vec<(Vec<char>, Vec<char>)>, k: &str, b: bool)
    ensures
        crate::ini::keys_view(final(items)@) == crate::ini::keys_view(old(items)@).push((k@, bool_word(b))),
{
    let w = if b { chars_of("true") } else { chars_of("false") };
    push_item(items, k, w);
}

/// `true` or `false`.
pub open spec fn bool_word(b: bool) -> Seq<char> {
    if b { "true"@ } else { "false"@ }
}

/// The value texts of the game mode and of the numeric settings of `c`.
pub open spec fn numbered_values(c: ConfigSettings) -> Seq<(Seq<char>, Seq<char>)> {
    seq![
        ("gameMode"@, quoted(c.game_mode@)),
        ("loginTime"@, int_text(c.login_time as int)),
        ("maxClientsPerIP"@, int_text(c.max_clients_per_ip as int)),
        ("difficulty"@, int_text(c.difficulty as int)),
        ("nightStartHour"@, int_text(c.night_start_hour as int)),
        ("nightEndHour"@, int_text(c.night_end_hour as int)),
        ("maxAttributeValue"@, int_text(c.max_attribute_value as int)),
        ("maxSpeedValue"@, int_text(c.max_speed_value as int)),
        ("maxSkillValue"@, int_text(c.max_skill_value as int)),
        ("maxAcrobaticsValue"@, int_text(c.max_acrobatics_value as int)),
        ("deathTime"@, int_text(c.death_time as int)),
        ("deathPenaltyJailDays"@, int_text(c.death_penalty_jail_days as int)),
        ("fixmeInterval"@, int_text(c.fixme_interval as int)),
        ("pingDifferenceRequiredForAuthority"@, int_text(c.ping_difference_required_for_authority as int)),
        ("enforcedLogLevel"@, int_text(c.enforced_log_level as int)),
        ("physicsFramerate"@, int_text(c.physics_framerate as int)),
        ("maximumObjectScale"@, c.maximum_object_scale@),
    ]
}

/// The value texts of the first group of flags of `c`.
pub open spec fn first_flag_values(c: ConfigSettings) -> Seq<(Seq<char>, Seq<char>)> {
    seq![
        ("passTimeWhenEmpty"@, bool_word(c.pass_time_when_empty)),
        ("allowConsole"@, bool_word(c.allow_console)),
        ("allowBedRest"@, bool_word(c.allow_bed_rest)),
        ("allowWildernessRest"@, bool_word(c.allow_wilderness_rest)),
        ("allowWait"@, bool_word(c.allow_wait)),
    ]
}

/// The value texts of the second group of flags of `c`.
pub open spec fn second_flag_values(c: ConfigSettings) -> Seq<(Seq<char>, Seq<char>)> {
    seq![
        ("shareJournal"@, bool_word(c.share_journal)),
        ("shareFactionRanks"@, bool_word(c.share_faction_ranks)),
        ("shareFactionExpulsion"@, bool_word(c.share_faction_expulsion)),
        ("shareFactionReputation"@, bool_word(c.share_faction_reputation)),
        ("shareTopics"@, bool_word(c.share_topics)),
    ]
}

/// The value texts of the third group of flags of `c`.
pub open spec fn third_flag_values(c: ConfigSettings) -> Seq<(Seq<char>, Seq<char>)> {
    seq![
        ("shareBounty"@, bool_word(c.share_bounty)),
        ("shareReputation"@, bool_word(c.share_reputation)),
        ("shareMapExploration"@, bool_word(c.share_map_exploration)),
        ("shareVideos"@, bool_word(c.share_videos)),
        ("useInstancedSpawn"@, bool_word(c.use_instanced_spawn)),
    ]
}

/// The value texts of the fourth group of flags of `c`.
pub open spec fn fourth_flag_values(c: ConfigSettings) -> Seq<(Seq<char>, Seq<char>)> {
    seq![
        ("respawnAtImperialShrine"@, bool_word(c.respawn_at_imperial_shrine)),
        ("respawnAtTribunalTemple"@, bool_word(c.respawn_at_tribunal_temple)),
        ("ignoreModifierWithMaxSkill"@, bool_word(c.ignore_modifier_with_max_skill)),
        ("playersRespawn"@, bool_word(c.players_respawn)),
        ("bountyResetOnDeath"@, bool_word(c.bounty_reset_on_death)),
    ]
}

/// The value texts of the fifth group of flags of `c`.
pub open spec fn fifth_flag_values(c: ConfigSettings) -> Seq<(Seq<char>, Seq<char>)> {
    seq![
        ("bountyDeathPenalty"@, bool_word(c.bounty_death_penalty)),
        ("allowSuicideCommand"@, bool_word(c.allow_suicide_command)),
        ("allowFixmeCommand"@, bool_word(c.allow_fixme_command)),
        ("allowOnContainerForUnloadedCells"@, bool_word(c.allow_on_container_for_unloaded_cells)),
        ("enablePlayerCollision"@, bool_word(c.enable_player_collision)),
    ]
}

/// The value texts of the sixth group of flags of `c`.
pub open spec fn sixth_flag_values(c: ConfigSettings) -> Seq<(Seq<char>, Seq<char>)> {
    seq![
        ("enableActorCollision"@, bool_word(c.enable_actor_collision)),
        ("enablePlacedObjectCollision"@, bool_word(c.enable_placed_object_collision)),
        ("useActorCollisionForPlacedObjects"@, bool_word(c.use_actor_collision_for_placed_objects)),
        ("enforceDataFiles"@, bool_word(c.enforce_data_files)),
    ]
}

/// The value text of each scalar setting of `c`, in the order they are set.
pub open spec fn setting_values(c: ConfigSettings) -> Seq<(Seq<char>, Seq<char>)> {
    numbered_values(c) + first_flag_values(c) + second_flag_values(c) + third_flag_values(c) + fourth_flag_values(c) + fifth_flag_values(c) + sixth_flag_values(c)
}

fn push_numbered_values(items: &mut Vec<(Vec<char>, Vec<char>)>, c: &ConfigSettings)
    ensures
        crate::ini::keys_view(final(items)@) == crate::ini::keys_view(old(items)@) + numbered_values(*c),
{
    let mut q = vec!['"'];
    let gm = chars_of(c.game_mode.as_str());
    append_chars(&mut q, gm.as_slice());
    q.push('"');
    assert(q@ =~= quoted(c.game_mode@));
    push_item(items, "gameMode", q);
    int_item(items, "loginTime", c.login_time);
    int_item(items, "maxClientsPerIP", c.max_clients_per_ip);
    int_item(items, "difficulty", c.difficulty);
    int_item(items, "nightStartHour", c.night_start_hour);
    int_item(items, "nightEndHour", c.night_end_hour);
    int_item(items, "maxAttributeValue", c.max_attribute_value);
    int_item(items, "maxSpeedValue", c.max_speed_value);
    int_item(items, "maxSkillValue", c.max_skill_value);
    int_item(items, "maxAcrobaticsValue", c.max_acrobatics_value);
    int_item(items, "deathTime", c.death_time);
    int_item(items, "deathPenaltyJailDays", c.death_penalty_jail_days);
    int_item(items, "fixmeInterval", c.fixme_interval);
    int_item(items, "pingDifferenceRequiredForAuthority", c.ping_difference_required_for_authority);
    int_item(items, "enforcedLogLevel", c.enforced_log_level);
    int_item(items, "physicsFramerate", c.physics_framerate);
    let sc = c.maximum_object_scale.as_text();
    push_item(items, "maximumObjectScale", chars_of(sc.as_str()));
    assert(crate::ini::keys_view(items@) =~= crate::ini::keys_view(old(items)@) + numbered_values(*c));
}

fn push_first_flag_values(items: &mut Vec<(Vec<char>, Vec<char>)>, c: &ConfigSettings)
    ensures
        crate::ini::keys_view(final(items)@) == crate::ini::keys_view(old(items)@) + first_flag_values(*c),
{
    bool_item(items, "passTimeWhenEmpty", c.pass_time_when_empty);
    bool_item(items, "allowConsole", c.allow_console);
    bool_item(items, "allowBedRest", c.allow_bed_rest);
    bool_item(items, "allowWildernessRest", c.allow_wilderness_rest);
    bool_item(items, "allowWait", c.allow_wait);
    assert(crate::ini::keys_view(items@) =~= crate::ini::keys_view(old(items)@) + first_flag_values(*c));
}

fn push_second_flag_values(items: &mut Vec<(Vec<char>, Vec<char>)>, c: &ConfigSettings)
    ensures
        crate::ini::keys_view(final(items)@) == crate::ini::keys_view(old(items)@) + second_flag_values(*c),
{
    bool_item(items, "shareJournal", c.share_journal);
    bool_item(items, "shareFactionRanks", c.share_faction_ranks);
    bool_item(items, "shareFactionExpulsion", c.share_faction_expulsion);
    bool_item(items, "shareFactionReputation", c.share_faction_reputation);
    bool_item(items, "shareTopics", c.share_topics);
    assert(crate::ini::keys_view(items@) =~= crate::ini::keys_view(old(items)@) + second_flag_values(*c));
}

fn push_third_flag_values(items: &mut Vec<(Vec<char>, Vec<char>)>, c: &ConfigSettings)
    ensures
        crate::ini::keys_view(final(items)@) == crate::ini::keys_view(old(items)@) + third_flag_values(*c),
{
    bool_item(items, "shareBounty", c.share_bounty);
    bool_item(items, "shareReputation", c.share_reputation);
    bool_item(items, "shareMapExploration", c.share_map_exploration);
    bool_item(items, "shareVideos", c.share_videos);
    bool_item(items, "useInstancedSpawn", c.use_instanced_spawn);
    assert(crate::ini::keys_view(items@) =~= crate::ini::keys_view(old(items)@) + third_flag_values(*c));
}

fn push_fourth_flag_values(items: &mut Vec<(Vec<char>, Vec<char>)>, c: &ConfigSettings)
    ensures
        crate::ini::keys_view(final(items)@) == crate::ini::keys_view(old(items)@) + fourth_flag_values(*c),
{
    bool_item(items, "respawnAtImperialShrine", c.respawn_at_imperial_shrine);
    bool_item(items, "respawnAtTribunalTemple", c.respawn_at_tribunal_temple);
    bool_item(items, "ignoreModifierWithMaxSkill", c.ignore_modifier_with_max_skill);
    bool_item(items, "playersRespawn", c.players_respawn);
    bool_item(items, "bountyResetOnDeath", c.bounty_reset_on_death);
    assert(crate::ini::keys_view(items@) =~= crate::ini::keys_view(old(items)@) + fourth_flag_values(*c));
}

fn push_fifth_flag_values(items: &mut Vec<(Vec<char>, Vec<char>)>, c: &ConfigSettings)
    ensures
        crate::ini::keys_view(final(items)@) == crate::ini::keys_view(old(items)@) + fifth_flag_values(*c),
{
    bool_item(items, "bountyDeathPenalty", c.bounty_death_penalty);
    bool_item(items, "allowSuicideCommand", c.allow_suicide_command);
    bool_item(items, "allowFixmeCommand", c.allow_fixme_command);
    bool_item(items, "allowOnContainerForUnloadedCells", c.allow_on_container_for_unloaded_cells);
    bool_item(items, "enablePlayerCollision", c.enable_player_collision);
    assert(crate::ini::keys_view(items@) =~= crate::ini::keys_view(old(items)@) + fifth_flag_values(*c));
}

fn push_sixth_flag_values(items: &mut Vec<(Vec<char>, Vec<char>)>, c: &ConfigSettings)
    ensures
        crate::ini::keys_view(final(items)@) == crate::ini::keys_view(old(items)@) + sixth_flag_values(*c),
{
    bool_item(items, "enableActorCollision", c.enable_actor_collision);
    bool_item(items, "enablePlacedObjectCollision", c.enable_placed_object_collision);
    bool_item(items, "useActorCollisionForPlacedObjects", c.use_actor_collision_for_placed_objects);
    bool_item(items, "enforceDataFiles", c.enforce_data_files);
    assert(crate::ini::keys_view(items@) =~= crate::ini::keys_view(old(items)@) + sixth_flag_values(*c));
}

/// Writes every scalar setting of `settings` into the Lua settings text, one
/// after the other as `set_setting_value` does: an assignment that exists is
/// rewritten in place, one that does not is added before `return config`.
/// Integers are written in decimal, flags as `true` or `false`, the game mode
/// between double quotes, and the object scale as the decimal text it holds.
/// Nested tables are left as they are.
pub fn update_server_settings(content: &str, settings: &ServerSettings) -> (r: Result<String, ConfigError>)
    ensures
        r is Ok,
        r->Ok_0@ == apply_values(content@, setting_values(settings.config)),
{
    let c = &settings.config;
    let mut items: Vec<(Vec<char>, Vec<char>)> = Vec::new();
    assert(crate::ini::keys_view(items@) =~= Seq::<(Seq<char>, Seq<char>)>::empty());
    push_numbered_values(&mut items, c);
    push_first_flag_values(&mut items, c);
    push_second_flag_values(&mut items, c);
    push_third_flag_values(&mut items, c);
    push_fourth_flag_values(&mut items, c);
    push_fifth_flag_values(&mut items, c);
    push_sixth_flag_values(&mut items, c);
    assert(crate::ini::keys_view(items@) =~= setting_values(*c));
    let ghost all = crate::ini::keys_view(items@);
    let mut t = chars_of(content);
    let mut i: usize = 0;
    assert(all.subrange(0, all.len() as int) =~= all);
    while i < items.len()
        invariant
            i <= items@.len(),
            all == crate::ini::keys_view(items@),
            apply_values(t@, all.subrange(i as int, all.len() as int)) == apply_values(content@, all),
        decreases items@.len() - i,
    {
        let ghost rest = all.subrange(i as int, all.len() as int);
        let n = set_value_chars(t.as_slice(), items[i].0.as_slice(), items[i].1.as_slice());
        assert(rest.drop_first() =~= all.subrange(i + 1, all.len() as int));
        t = n;
        i = i + 1;
    }
    assert(all.subrange(i as int, all.len() as int) =~= Seq::<(Seq<char>, Seq<char>)>::empty());
    Ok(string_of(t.as_slice()))
}

} // verus!
