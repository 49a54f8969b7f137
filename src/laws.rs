use vstd::prelude::*;
use crate::ini::{entry_in, entry_of, ini_update, line_end_cr, rewrite_of, section_at, some_line_rewritten, updated_line, edit_from};
use crate::ini::last_value;
use crate::lua::{assignment_line, insert_point, int_setting, lemma_rfind_bound, set_value, has_assignment, is_default_settings, setting_name, settings_of, settings_ok, settings_view};
use crate::network::server_config_of;
use crate::scan::{LitKind, assign_eq, digits_end, first_lit, lit_at, lit_end, occurs_at, skip_ws};
use crate::literal::{int_text, is_digit, lemma_int_text, lemma_nat_text, nat_text};
use crate::text::{is_ws, trim};
use crate::types::{ConfigSettings, Tes3MPServerConfig};
use crate::lines::{join_lines, lemma_join_split, lemma_split_len, split_lines};

verus! {

/// No line of `ls` holds a `\n`.
pub open spec fn no_newlines(ls: Seq<Seq<char>>) -> bool {
    forall|i: int, j: int| 0 <= i < ls.len() && 0 <= j < ls[i].len() ==> #[trigger] ls[i][j] != '\n'
}

proof fn lemma_split_after_newline(a: Seq<char>, b: Seq<char>)
    requires
        forall|j: int| 0 <= j < b.len() ==> b[j] != '\n',
    ensures
        split_lines(a + seq!['\n'] + b) == split_lines(a).push(b),
    decreases b.len(),
{
    let x = a + seq!['\n'] + b;
    if b.len() == 0 {
        assert(x.drop_last() =~= a);
        assert(x.last() == '\n');
        assert(b =~= Seq::<char>::empty());
    } else {
        let b0 = b.drop_last();
        lemma_split_after_newline(a, b0);
        assert(x.drop_last() =~= a + seq!['\n'] + b0);
        assert(x.last() == b[b.len() - 1]);
        assert(b0.push(b.last()) =~= b);
        let p = split_lines(a).push(b0);
        assert(p.len() - 1 == split_lines(a).len());
        assert(p.last() == b0);
        assert(p.update(p.len() - 1, p.last().push(x.last())) =~= split_lines(a).push(b));
    }
}

proof fn lemma_split_line(b: Seq<char>)
    requires
        forall|j: int| 0 <= j < b.len() ==> b[j] != '\n',
    ensures
        split_lines(b) == seq![b],
    decreases b.len(),
{
    if b.len() > 0 {
        lemma_split_line(b.drop_last());
        assert(b.drop_last().push(b.last()) =~= b);
        assert(seq![b.drop_last()].update(0, b.drop_last().push(b.last())) =~= seq![b]);
    } else {
        assert(b =~= Seq::<char>::empty());
    }
}

/// Splitting joined lines that hold no `\n` gives the lines back.
pub proof fn lemma_split_join(ls: Seq<Seq<char>>)
    requires
        ls.len() >= 1,
        no_newlines(ls),
    ensures
        split_lines(join_lines(ls)) == ls,
    decreases ls.len(),
{
    if ls.len() == 1 {
        lemma_split_line(ls[0]);
        assert(seq![ls[0]] =~= ls);
    } else {
        let p = ls.drop_last();
        assert forall|i: int, j: int| 0 <= i < p.len() && 0 <= j < p[i].len() implies #[trigger] p[i][j] != '\n' by {
            assert(p[i] == ls[i]);
        }
        lemma_split_join(p);
        let b = ls.last();
        assert forall|j: int| 0 <= j < b.len() implies b[j] != '\n' by {
            assert(ls[ls.len() - 1][j] != '\n');
        }
        lemma_split_after_newline(join_lines(p), b);
        assert(p.push(b) =~= ls);
    }
}

/// The lines of a text hold no `\n`.
pub proof fn lemma_split_no_newlines(t: Seq<char>)
    ensures
        no_newlines(split_lines(t)),
    decreases t.len(),
{
    if t.len() > 0 {
        lemma_split_no_newlines(t.drop_last());
        lemma_split_len(t.drop_last());
        let p = split_lines(t.drop_last());
        let q = split_lines(t);
        assert forall|i: int, j: int| 0 <= i < q.len() && 0 <= j < q[i].len() implies #[trigger] q[i][j] != '\n' by {
            if t.last() != '\n' && i == q.len() - 1 {
                if j < p.last().len() {
                    assert(q[i][j] == p[i][j]);
                }
            } else if i < p.len() {
                assert(q[i] == p[i]);
            }
        }
    }
}

/// Writing back what was read changes nothing: where every line that the
/// edits name already reads `key = value` for its new value (a line with more
/// blanks, or a value written otherwise, is rewritten), and some line is named,
/// the update gives the text back byte for byte.
pub proof fn lemma_unchanged_update_keeps_text(
    t: Seq<char>,
    edits: Seq<(Seq<char>, Seq<char>, Seq<char>)>,
)
    requires
        some_line_rewritten(split_lines(t), edits),
        forall|i: int|
            0 <= i < split_lines(t).len() && (#[trigger] rewrite_of(split_lines(t), i, edits)) is Some
                ==> rewrite_of(split_lines(t), i, edits) == Some(split_lines(t)[i]),
    ensures
        ini_update(t, edits) == Ok::<Seq<char>, crate::error::ConfigError>(t),
{
    let ls = split_lines(t);
    let nl = Seq::new(ls.len(), |i: int| updated_line(ls, i, edits));
    assert(nl =~= ls) by {
        assert forall|i: int| 0 <= i < ls.len() implies nl[i] == ls[i] by {
            if rewrite_of(ls, i, edits) is Some {
            }
        }
    }
    lemma_join_split(t);
}

/// An edit of one key of one section touches only the lines that set that key
/// in that section: each of them becomes `key = value`, every other line,
/// comments and blank lines included, stays as it was, and no line is added or
/// removed.
pub proof fn lemma_update_is_local(t: Seq<char>, s: Seq<char>, k: Seq<char>, v: Seq<char>, r: Seq<char>)
    requires
        ini_update(t, seq![(s, k, v)]) == Ok::<Seq<char>, crate::error::ConfigError>(r),
        forall|j: int| 0 <= j < v.len() ==> v[j] != '\n',
        forall|j: int| 0 <= j < k.len() ==> k[j] != '\n',
    ensures
        split_lines(r).len() == split_lines(t).len(),
        forall|i: int|
            0 <= i < split_lines(t).len() ==> (#[trigger] split_lines(r)[i]) == (if entry_in(
                split_lines(t),
                i,
                s,
                k,
            ) {
                k + seq![' ', '=', ' '] + v + line_end_cr(split_lines(t)[i])
            } else {
                split_lines(t)[i]
            }),
{
    let ls = split_lines(t);
    let edits = seq![(s, k, v)];
    let nl = Seq::new(ls.len(), |i: int| updated_line(ls, i, edits));
    lemma_split_len(t);
    lemma_split_no_newlines(t);
    assert forall|i: int| 0 <= i < ls.len() implies nl[i] == (if entry_in(ls, i, s, k) {
        k + seq![' ', '=', ' '] + v + line_end_cr(ls[i])
    } else {
        ls[i]
    }) by {
        match section_at(ls, i) {
            Some(sec) => match entry_of(ls[i]) {
                Some(e) => {
                    assert(edit_from(edits, sec, e.0, 1) is None);
                },
                None => {},
            },
            None => {},
        }
    }
    assert(no_newlines(nl)) by {
        assert forall|i: int, j: int| 0 <= i < nl.len() && 0 <= j < nl[i].len() implies #[trigger] nl[i][j] != '\n' by {
            if entry_in(ls, i, s, k) {
                let w = k + seq![' ', '=', ' '] + v + line_end_cr(ls[i]);
                assert(nl[i] == w);
                if j < k.len() {
                    assert(w[j] == k[j]);
                } else if j < k.len() + 3 {
                } else if j < k.len() + 3 + v.len() {
                    assert(w[j] == v[j - k.len() - 3]);
                }
            } else {
                assert(nl[i][j] == ls[i][j]);
            }
        }
    }
    lemma_split_join(nl);
}

/// `t` has a line that sets key `k` in section `s`.
pub open spec fn sets_key(t: Seq<char>, s: Seq<char>, k: Seq<char>) -> bool {
    exists|i: int| 0 <= i < split_lines(t).len() && #[trigger] entry_in(split_lines(t), i, s, k)
}

proof fn lemma_unset_key(ls: Seq<Seq<char>>, s: Seq<char>, k: Seq<char>, n: int)
    requires
        n <= ls.len(),
        forall|i: int| 0 <= i < ls.len() ==> !#[trigger] entry_in(ls, i, s, k),
    ensures
        last_value(ls, s, k, n) is None,
    decreases n,
{
    if n > 0 {
        lemma_unset_key(ls, s, k, n - 1);
    }
}

/// `c` holds the default of every network setting.
pub open spec fn is_default_server_config(c: Tes3MPServerConfig) -> bool {
    &&& c.general.local_address@ == "0.0.0.0"@
    &&& c.general.port == 25565
    &&& c.general.maximum_players == 64
    &&& c.general.hostname@ == "TES3MP server"@
    &&& c.general.log_level == 1
    &&& c.general.password@ == Seq::<char>::empty()
    &&& c.plugins.home@ == "./server"@
    &&& c.plugins.plugins@ == "serverCore.lua"@
    &&& c.master_server.enabled == true
    &&& c.master_server.address@ == "master.tes3mp.com"@
    &&& c.master_server.port == 25561
    &&& c.master_server.rate == 10000
}

/// A server INI text that sets none of the known keys in their sections reads
/// as the defaults.
pub proof fn lemma_unset_server_keys_give_defaults(t: Seq<char>, c: Tes3MPServerConfig)
    requires
        server_config_of(t, c),
        !sets_key(t, "General"@, "localAddress"@),
        !sets_key(t, "General"@, "port"@),
        !sets_key(t, "General"@, "maximumPlayers"@),
        !sets_key(t, "General"@, "hostname"@),
        !sets_key(t, "General"@, "logLevel"@),
        !sets_key(t, "General"@, "password"@),
        !sets_key(t, "Plugins"@, "home"@),
        !sets_key(t, "Plugins"@, "plugins"@),
        !sets_key(t, "MasterServer"@, "enabled"@),
        !sets_key(t, "MasterServer"@, "address"@),
        !sets_key(t, "MasterServer"@, "port"@),
        !sets_key(t, "MasterServer"@, "rate"@),
    ensures
        is_default_server_config(c),
{
    let ls = split_lines(t);
    let n = ls.len() as int;
    lemma_unset_key(ls, "General"@, "localAddress"@, n);
    lemma_unset_key(ls, "General"@, "port"@, n);
    lemma_unset_key(ls, "General"@, "maximumPlayers"@, n);
    lemma_unset_key(ls, "General"@, "hostname"@, n);
    lemma_unset_key(ls, "General"@, "logLevel"@, n);
    lemma_unset_key(ls, "General"@, "password"@, n);
    lemma_unset_key(ls, "Plugins"@, "home"@, n);
    lemma_unset_key(ls, "Plugins"@, "plugins"@, n);
    lemma_unset_key(ls, "MasterServer"@, "enabled"@, n);
    lemma_unset_key(ls, "MasterServer"@, "address"@, n);
    lemma_unset_key(ls, "MasterServer"@, "port"@, n);
    lemma_unset_key(ls, "MasterServer"@, "rate"@, n);
}

/// The empty text sets no key.
pub proof fn lemma_empty_sets_nothing(s: Seq<char>, k: Seq<char>)
    ensures
        !sets_key(Seq::empty(), s, k),
{
    let ls = split_lines(Seq::<char>::empty());
    assert(ls == seq![Seq::<char>::empty()]);
    assert(trim(Seq::<char>::empty()) =~= Seq::<char>::empty());
    assert(entry_of(ls[0]) is None);
}

/// The empty server INI text reads as the defaults.
pub proof fn lemma_empty_server_text_gives_defaults(c: Tes3MPServerConfig)
    requires
        server_config_of(Seq::empty(), c),
    ensures
        is_default_server_config(c),
{
    lemma_empty_sets_nothing("General"@, "localAddress"@);
    lemma_empty_sets_nothing("General"@, "port"@);
    lemma_empty_sets_nothing("General"@, "maximumPlayers"@);
    lemma_empty_sets_nothing("General"@, "hostname"@);
    lemma_empty_sets_nothing("General"@, "logLevel"@);
    lemma_empty_sets_nothing("General"@, "password"@);
    lemma_empty_sets_nothing("Plugins"@, "home"@);
    lemma_empty_sets_nothing("Plugins"@, "plugins"@);
    lemma_empty_sets_nothing("MasterServer"@, "enabled"@);
    lemma_empty_sets_nothing("MasterServer"@, "address"@);
    lemma_empty_sets_nothing("MasterServer"@, "port"@);
    lemma_empty_sets_nothing("MasterServer"@, "rate"@);
    lemma_unset_server_keys_give_defaults(Seq::empty(), c);
}

proof fn lemma_unassigned(t: Seq<char>, p: Seq<char>, k: LitKind, i: int, end: int)
    requires
        0 <= i,
        end <= t.len(),
        !has_assignment(t, p),
    ensures
        first_lit(t, p, k, i, end) is None,
    decreases end - i,
{
    if i < end {
        assert(assign_eq(t, p, i) is None);
        lemma_unassigned(t, p, k, i + 1, end);
    }
}

/// One of the keys of the settings table.
pub open spec fn is_setting_key(k: Seq<char>) -> bool {
    k == "gameMode"@
    || k == "loginTime"@
    || k == "maxClientsPerIP"@
    || k == "difficulty"@
    || k == "passTimeWhenEmpty"@
    || k == "nightStartHour"@
    || k == "nightEndHour"@
    || k == "allowConsole"@
    || k == "allowBedRest"@
    || k == "allowWildernessRest"@
    || k == "allowWait"@
    || k == "shareJournal"@
    || k == "shareFactionRanks"@
    || k == "shareFactionExpulsion"@
    || k == "shareFactionReputation"@
    || k == "shareTopics"@
    || k == "shareBounty"@
    || k == "shareReputation"@
    || k == "shareMapExploration"@
    || k == "shareVideos"@
    || k == "useInstancedSpawn"@
    || k == "respawnAtImperialShrine"@
    || k == "respawnAtTribunalTemple"@
    || k == "maxAttributeValue"@
    || k == "maxSpeedValue"@
    || k == "maxSkillValue"@
    || k == "maxAcrobaticsValue"@
    || k == "ignoreModifierWithMaxSkill"@
    || k == "playersRespawn"@
    || k == "deathTime"@
    || k == "deathPenaltyJailDays"@
    || k == "bountyResetOnDeath"@
    || k == "bountyDeathPenalty"@
    || k == "allowSuicideCommand"@
    || k == "allowFixmeCommand"@
    || k == "fixmeInterval"@
    || k == "pingDifferenceRequiredForAuthority"@
    || k == "enforcedLogLevel"@
    || k == "physicsFramerate"@
    || k == "allowOnContainerForUnloadedCells"@
    || k == "enablePlayerCollision"@
    || k == "enableActorCollision"@
    || k == "enablePlacedObjectCollision"@
    || k == "useActorCollisionForPlacedObjects"@
    || k == "maximumObjectScale"@
    || k == "enforceDataFiles"@
    || k == "gameSettings"@
    || k == "defaultTimeTable"@
}

/// A Lua settings text that assigns none of the known keys reads as the
/// defaults, without error.
pub proof fn lemma_unassigned_settings_give_defaults(t: Seq<char>, c: ConfigSettings)
    requires
        settings_of(t, c),
        forall|k: Seq<char>| is_setting_key(k) ==> !#[trigger] has_assignment(t, setting_name(k)),
    ensures
        settings_ok(t),
        is_default_settings(c),
{
    let n = t.len() as int;
    assert(is_setting_key("gameMode"@));
    lemma_unassigned(t, setting_name("gameMode"@), LitKind::Str, 0, n);
    assert(is_setting_key("loginTime"@));
    lemma_unassigned(t, setting_name("loginTime"@), LitKind::Int, 0, n);
    assert(is_setting_key("maxClientsPerIP"@));
    lemma_unassigned(t, setting_name("maxClientsPerIP"@), LitKind::Int, 0, n);
    assert(is_setting_key("difficulty"@));
    lemma_unassigned(t, setting_name("difficulty"@), LitKind::Int, 0, n);
    assert(is_setting_key("passTimeWhenEmpty"@));
    lemma_unassigned(t, setting_name("passTimeWhenEmpty"@), LitKind::Bool, 0, n);
    assert(is_setting_key("nightStartHour"@));
    lemma_unassigned(t, setting_name("nightStartHour"@), LitKind::Int, 0, n);
    assert(is_setting_key("nightEndHour"@));
    lemma_unassigned(t, setting_name("nightEndHour"@), LitKind::Int, 0, n);
    assert(is_setting_key("allowConsole"@));
    lemma_unassigned(t, setting_name("allowConsole"@), LitKind::Bool, 0, n);
    assert(is_setting_key("allowBedRest"@));
    lemma_unassigned(t, setting_name("allowBedRest"@), LitKind::Bool, 0, n);
    assert(is_setting_key("allowWildernessRest"@));
    lemma_unassigned(t, setting_name("allowWildernessRest"@), LitKind::Bool, 0, n);
    assert(is_setting_key("allowWait"@));
    lemma_unassigned(t, setting_name("allowWait"@), LitKind::Bool, 0, n);
    assert(is_setting_key("shareJournal"@));
    lemma_unassigned(t, setting_name("shareJournal"@), LitKind::Bool, 0, n);
    assert(is_setting_key("shareFactionRanks"@));
    lemma_unassigned(t, setting_name("shareFactionRanks"@), LitKind::Bool, 0, n);
    assert(is_setting_key("shareFactionExpulsion"@));
    lemma_unassigned(t, setting_name("shareFactionExpulsion"@), LitKind::Bool, 0, n);
    assert(is_setting_key("shareFactionReputation"@));
    lemma_unassigned(t, setting_name("shareFactionReputation"@), LitKind::Bool, 0, n);
    assert(is_setting_key("shareTopics"@));
    lemma_unassigned(t, setting_name("shareTopics"@), LitKind::Bool, 0, n);
    assert(is_setting_key("shareBounty"@));
    lemma_unassigned(t, setting_name("shareBounty"@), LitKind::Bool, 0, n);
    assert(is_setting_key("shareReputation"@));
    lemma_unassigned(t, setting_name("shareReputation"@), LitKind::Bool, 0, n);
    assert(is_setting_key("shareMapExploration"@));
    lemma_unassigned(t, setting_name("shareMapExploration"@), LitKind::Bool, 0, n);
    assert(is_setting_key("shareVideos"@));
    lemma_unassigned(t, setting_name("shareVideos"@), LitKind::Bool, 0, n);
    assert(is_setting_key("useInstancedSpawn"@));
    lemma_unassigned(t, setting_name("useInstancedSpawn"@), LitKind::Bool, 0, n);
    assert(is_setting_key("respawnAtImperialShrine"@));
    lemma_unassigned(t, setting_name("respawnAtImperialShrine"@), LitKind::Bool, 0, n);
    assert(is_setting_key("respawnAtTribunalTemple"@));
    lemma_unassigned(t, setting_name("respawnAtTribunalTemple"@), LitKind::Bool, 0, n);
    assert(is_setting_key("maxAttributeValue"@));
    lemma_unassigned(t, setting_name("maxAttributeValue"@), LitKind::Int, 0, n);
    assert(is_setting_key("maxSpeedValue"@));
    lemma_unassigned(t, setting_name("maxSpeedValue"@), LitKind::Int, 0, n);
    assert(is_setting_key("maxSkillValue"@));
    lemma_unassigned(t, setting_name("maxSkillValue"@), LitKind::Int, 0, n);
    assert(is_setting_key("maxAcrobaticsValue"@));
    lemma_unassigned(t, setting_name("maxAcrobaticsValue"@), LitKind::Int, 0, n);
    assert(is_setting_key("ignoreModifierWithMaxSkill"@));
    lemma_unassigned(t, setting_name("ignoreModifierWithMaxSkill"@), LitKind::Bool, 0, n);
    assert(is_setting_key("playersRespawn"@));
    lemma_unassigned(t, setting_name("playersRespawn"@), LitKind::Bool, 0, n);
    assert(is_setting_key("deathTime"@));
    lemma_unassigned(t, setting_name("deathTime"@), LitKind::Int, 0, n);
    assert(is_setting_key("deathPenaltyJailDays"@));
    lemma_unassigned(t, setting_name("deathPenaltyJailDays"@), LitKind::Int, 0, n);
    assert(is_setting_key("bountyResetOnDeath"@));
    lemma_unassigned(t, setting_name("bountyResetOnDeath"@), LitKind::Bool, 0, n);
    assert(is_setting_key("bountyDeathPenalty"@));
    lemma_unassigned(t, setting_name("bountyDeathPenalty"@), LitKind::Bool, 0, n);
    assert(is_setting_key("allowSuicideCommand"@));
    lemma_unassigned(t, setting_name("allowSuicideCommand"@), LitKind::Bool, 0, n);
    assert(is_setting_key("allowFixmeCommand"@));
    lemma_unassigned(t, setting_name("allowFixmeCommand"@), LitKind::Bool, 0, n);
    assert(is_setting_key("fixmeInterval"@));
    lemma_unassigned(t, setting_name("fixmeInterval"@), LitKind::Int, 0, n);
    assert(is_setting_key("pingDifferenceRequiredForAuthority"@));
    lemma_unassigned(t, setting_name("pingDifferenceRequiredForAuthority"@), LitKind::Int, 0, n);
    assert(is_setting_key("enforcedLogLevel"@));
    lemma_unassigned(t, setting_name("enforcedLogLevel"@), LitKind::Int, 0, n);
    assert(is_setting_key("physicsFramerate"@));
    lemma_unassigned(t, setting_name("physicsFramerate"@), LitKind::Int, 0, n);
    assert(is_setting_key("allowOnContainerForUnloadedCells"@));
    lemma_unassigned(t, setting_name("allowOnContainerForUnloadedCells"@), LitKind::Bool, 0, n);
    assert(is_setting_key("enablePlayerCollision"@));
    lemma_unassigned(t, setting_name("enablePlayerCollision"@), LitKind::Bool, 0, n);
    assert(is_setting_key("enableActorCollision"@));
    lemma_unassigned(t, setting_name("enableActorCollision"@), LitKind::Bool, 0, n);
    assert(is_setting_key("enablePlacedObjectCollision"@));
    lemma_unassigned(t, setting_name("enablePlacedObjectCollision"@), LitKind::Bool, 0, n);
    assert(is_setting_key("useActorCollisionForPlacedObjects"@));
    lemma_unassigned(t, setting_name("useActorCollisionForPlacedObjects"@), LitKind::Bool, 0, n);
    assert(is_setting_key("maximumObjectScale"@));
    lemma_unassigned(t, setting_name("maximumObjectScale"@), LitKind::Num, 0, n);
    assert(is_setting_key("enforceDataFiles"@));
    lemma_unassigned(t, setting_name("enforceDataFiles"@), LitKind::Bool, 0, n);
    assert(is_setting_key("gameSettings"@));
    lemma_unassigned(t, setting_name("gameSettings"@), LitKind::Block, 0, n);
    assert(is_setting_key("defaultTimeTable"@));
    lemma_unassigned(t, setting_name("defaultTimeTable"@), LitKind::Block, 0, n);
    assert(c.game_settings@.len() == settings_view(c.game_settings@).len());
}

proof fn lemma_skip_ws_prefix(r: Seq<char>, t: Seq<char>, i: int, q: int)
    requires
        0 <= i <= q <= t.len(),
        q < r.len(),
        forall|x: int| 0 <= x < q ==> r[x] == t[x],
    ensures
        skip_ws(t, i) < q ==> skip_ws(r, i) == skip_ws(t, i),
        skip_ws(t, i) >= q ==> skip_ws(r, i) == skip_ws(r, q),
    decreases q - i,
{
    crate::scan::lemma_skip_ws_ge(t, i);
    if i < q {
        assert(r[i] == t[i]);
        if is_ws(t[i]) {
            lemma_skip_ws_prefix(r, t, i + 1, q);
        }
    }
}

proof fn lemma_digits_end_at(r: Seq<char>, i: int, m: int)
    requires
        0 <= i <= m <= r.len(),
        forall|x: int| i <= x < m ==> is_digit(#[trigger] r[x]),
        m == r.len() || !is_digit(r[m]),
    ensures
        digits_end(r, i) == m,
    decreases m - i,
{
    if i < m {
        lemma_digits_end_at(r, i + 1, m);
    }
}

proof fn lemma_first_lit_from(r: Seq<char>, p: Seq<char>, k: LitKind, i: int, s: int, end: int)
    requires
        0 <= i <= s < end,
        forall|j: int| i <= j < s ==> (#[trigger] lit_at(r, p, k, j, end)) is None,
        lit_at(r, p, k, s, end) is Some,
    ensures
        first_lit(r, p, k, i, end) == lit_at(r, p, k, s, end),
    decreases s - i,
{
    if i < s {
        lemma_first_lit_from(r, p, k, i + 1, s, end);
    }
}

proof fn lemma_statement_reads(r: Seq<char>, p: Seq<char>, n: i32, s: int)
    requires
        0 <= s,
        p.len() > 0,
        s + p.len() + 3 + int_text(n as int).len() < r.len(),
        forall|x: int| 0 <= x < p.len() ==> #[trigger] r[s + x] == p[x],
        r[s + p.len()] == ' ',
        r[s + p.len() + 1] == '=',
        r[s + p.len() + 2] == ' ',
        forall|x: int| 0 <= x < int_text(n as int).len() ==> #[trigger] r[s + p.len() + 3 + x] == int_text(n as int)[x],
        r[s + p.len() + 3 + int_text(n as int).len()] == '\n',
    ensures
        lit_at(r, p, LitKind::Int, s, r.len() as int) == Some((s + p.len() + 3, s + p.len() + 3 + int_text(n as int).len())),
        r.subrange(s + p.len() + 3, s + p.len() + 3 + int_text(n as int).len()) == int_text(n as int),
{
    let v = int_text(n as int);
    let pl = p.len() as int;
    let v0 = s + pl + 3;
    let ve = v0 + v.len();
    assert forall|x: int| 0 <= x < pl implies r.subrange(s, s + pl)[x] == p[x] by {
        assert(r[s + x] == p[x]);
    }
    assert(r.subrange(s, s + pl) =~= p);
    assert(occurs_at(r, p, s));
    assert(skip_ws(r, s + pl + 1) == s + pl + 1);
    assert(skip_ws(r, s + pl) == s + pl + 1);
    assert(assign_eq(r, p, s) == Some(s + pl + 1));
    if n < 0 {
        lemma_nat_text((-n) as nat);
        assert(v[0] == '-');
        assert(r[v0 + 0] == v[0]);
        assert(skip_ws(r, v0) == v0);
        assert forall|x: int| v0 + 1 <= x < ve implies is_digit(#[trigger] r[x]) by {
            assert(r[v0 + (x - v0)] == v[x - v0]);
            assert(v[x - v0] == nat_text((-n) as nat)[x - v0 - 1]);
        }
        lemma_digits_end_at(r, v0 + 1, ve);
    } else {
        lemma_nat_text(n as nat);
        assert(r[v0 + 0] == v[0]);
        assert(is_digit(v[0]));
        assert(skip_ws(r, v0) == v0);
        assert forall|x: int| v0 <= x < ve implies is_digit(#[trigger] r[x]) by {
            assert(r[v0 + (x - v0)] == v[x - v0]);
        }
        lemma_digits_end_at(r, v0, ve);
    }
    assert(skip_ws(r, s + pl + 2) == v0);
    assert(lit_end(r, LitKind::Int, v0) == Some(ve));
    assert forall|x: int| 0 <= x < v.len() implies r.subrange(v0, ve)[x] == v[x] by {
        assert(r[v0 + x] == v[x]);
    }
    assert(r.subrange(v0, ve) =~= v);
}

proof fn lemma_nothing_before(t: Seq<char>, r: Seq<char>, k: Seq<char>, q: int, j: int)
    requires
        0 <= j <= q <= t.len(),
        q + 1 < r.len(),
        forall|x: int| 0 <= x < q ==> #[trigger] r[x] == t[x],
        r[q] == '\n',
        r[q + 1] == 'c',
        !has_assignment(t, setting_name(k)),
        forall|x: int| 0 <= x < k.len() ==> k[x] != '\n',
    ensures
        assign_eq(r, setting_name(k), j) is None,
{
    reveal_strlit("config.");
    let p = setting_name(k);
    let pl = p.len() as int;
    if assign_eq(r, p, j) is Some {
        if j + pl <= q {
            assert(r.subrange(j, j + pl) =~= t.subrange(j, j + pl));
            lemma_skip_ws_prefix(r, t, j + pl, q);
            assert(skip_ws(r, q + 1) == q + 1);
            assert(skip_ws(r, q) == q + 1);
            let e = skip_ws(r, j + pl);
            assert(r[e] == '=');
            if skip_ws(t, j + pl) >= q {
                assert(e == q + 1);
            }
            assert(skip_ws(t, j + pl) == e);
            crate::scan::lemma_skip_ws_ge(r, j + pl);
            assert(t[e] == r[e]);
            assert(occurs_at(t, p, j));
            assert(assign_eq(t, p, j) is Some);
            assert(j < t.len());
        } else {
            assert(r.subrange(j, j + pl)[q - j] == r[q]);
            if q - j < 7 {
                assert(p[q - j] == "config."@[q - j]);
            } else {
                assert(p[q - j] == k[q - j - 7]);
            }
        }
    }
}

/// Setting an integer that the text does not assign yet adds the statement
/// `config.k = n` on a line of its own before the last `return config`, and
/// reading the result gives `n` back.
pub proof fn lemma_insert_then_read(t: Seq<char>, k: Seq<char>, n: i32, d: int)
    requires
        !has_assignment(t, setting_name(k)),
        forall|j: int| 0 <= j < k.len() ==> k[j] != '\n',
    ensures
        set_value(t, k, int_text(n as int)) == t.subrange(0, insert_point(t)) + seq!['\n']
            + assignment_line(k, int_text(n as int)) + seq!['\n'] + t.subrange(
            insert_point(t),
            t.len() as int,
        ),
        int_setting(set_value(t, k, int_text(n as int)), k, d) == Some(n as int),
{
    reveal_strlit("config.");
    reveal_strlit("return config");
    let p = setting_name(k);
    let v = int_text(n as int);
    let q = insert_point(t);
    lemma_rfind_bound(t, "return config"@, t.len() as int);
    let line = assignment_line(k, v);
    let r = set_value(t, k, v);
    let a = t.subrange(0, q);
    let b = t.subrange(q, t.len() as int);
    let s = q + 1;
    let pl = p.len() as int;
    let w = a + seq!['\n'];
    let w2 = w + line;
    let w3 = w2 + seq!['\n'];
    assert(r == w3 + b);
    assert(line == p + seq![' ', '=', ' '] + v);
    assert forall|x: int| 0 <= x < pl implies #[trigger] r[s + x] == p[x] by {
        assert(r[s + x] == w3[s + x]);
        assert(w3[s + x] == w2[s + x]);
        assert(w2[s + x] == line[x]);
    }
    assert(r[s + pl] == line[pl]);
    assert(r[s + pl + 1] == line[pl + 1]);
    assert(r[s + pl + 2] == line[pl + 2]);
    assert forall|x: int| 0 <= x < v.len() implies #[trigger] r[s + pl + 3 + x] == v[x] by {
        assert(r[s + pl + 3 + x] == w2[s + pl + 3 + x]);
        assert(w2[s + pl + 3 + x] == line[pl + 3 + x]);
    }
    assert(r[s + pl + 3 + v.len()] == w3[s + line.len()]);
    lemma_statement_reads(r, p, n, s);
    assert forall|x: int| 0 <= x < q implies #[trigger] r[x] == t[x] by {
        assert(r[x] == w[x]);
        assert(w[x] == a[x]);
    }
    assert(r[q] == w[q]);
    assert(r[q + 1] == line[0]);
    assert(line[0] == p[0]);
    assert(p[0] == 'c');
    assert forall|j: int| 0 <= j < s implies (#[trigger] lit_at(r, p, LitKind::Int, j, r.len() as int)) is None by {
        lemma_nothing_before(t, r, k, q, j);
    }
    lemma_int_text(n as int);
    lemma_first_lit_from(r, p, LitKind::Int, 0, s, r.len() as int);
}

/// The empty Lua settings text reads as the defaults, without error.
pub proof fn lemma_empty_settings_give_defaults(c: ConfigSettings)
    requires
        settings_of(Seq::empty(), c),
    ensures
        settings_ok(Seq::empty()),
        is_default_settings(c),
{
    lemma_unassigned_settings_give_defaults(Seq::empty(), c);
}

} // verus!
