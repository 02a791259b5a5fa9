//! Game commands that the IR can hold as instructions of their own.
use vstd::prelude::*;

use crate::strutil::{
    debug_quoted, decimal, decimal_int, i64_to_string, join_with, push_char, push_decimal, push_str, str_debug,
    string_views, u64_to_string,
};
use super::block::FillBiomeData;
use super::entity::{EffectDuration, SelectorParameter, SelectorSort, UUID};
use super::scoreboard_and_teams::Criterion;
use super::time::{TimePreset, TimeQuery};
use super::{Difficulty, EntityTarget, Gamemode, XPValue};

verus! {

/// A game command with its arguments
#[derive(Debug, Clone)]
pub enum MinecraftInstr {
    SetGameruleBool { rule: String, value: bool },
    SetGameruleInt { rule: String, value: i32 },
    GetGamerule { rule: String },
    Say { message: String },
    Tell { target: EntityTarget, message: String },
    Me { message: String },
    TeamMessage { message: String },
    ListPlayers,
    StopServer,
    BanPlayers { targets: Vec<EntityTarget>, reason: Option<String> },
    BanIP { target: String, reason: Option<String> },
    PardonPlayers { targets: Vec<EntityTarget> },
    PardonIP { target: String },
    Banlist,
    Op { targets: Vec<EntityTarget> },
    Deop { targets: Vec<EntityTarget> },
    WhitelistAdd { targets: Vec<EntityTarget> },
    WhitelistRemove { targets: Vec<EntityTarget> },
    WhitelistOn,
    WhitelistOff,
    WhitelistReload,
    WhitelistList,
    Publish,
    Kick { targets: Vec<EntityTarget>, reason: Option<String> },
    Kill { target: EntityTarget },
    SetXP { target: EntityTarget, amount: i32, value: XPValue },
    AddXP { target: EntityTarget, amount: i32, value: XPValue },
    GetXP { target: EntityTarget, value: XPValue },
    Enchant { target: EntityTarget, enchantment: String, level: i32 },
    Seed,
    GetDifficulty,
    SetDifficulty { difficulty: Difficulty },
    Reload,
    StopSound,
    FillBiome { data: FillBiomeData },
    SetTimePreset { time: TimePreset },
    GetTime { query: TimeQuery },
    AddTag { target: EntityTarget, tag: String },
    RemoveTag { target: EntityTarget, tag: String },
    ListTags { target: EntityTarget },
    RideMount { target: EntityTarget, vehicle: EntityTarget },
    RideDismount { target: EntityTarget },
    Spectate { target: EntityTarget, spectator: EntityTarget },
    SpectateStop,
    SetGamemode { target: EntityTarget, gamemode: Gamemode },
    DefaultGamemode { gamemode: Gamemode },
    TeleportToEntity { source: EntityTarget, dest: EntityTarget },
    AddScoreboardObjective { objective: String, criterion: Criterion, display_name: Option<String> },
    RemoveScoreboardObjective { objective: String },
    ListScoreboardObjectives,
    TriggerAdd { objective: String, amount: i32 },
    TriggerSet { objective: String, amount: i32 },
    DisableDatapack { pack: String },
    EnableDatapack { pack: String },
    ListPlayerUUIDs,
    RemoveAttributeModifier { target: EntityTarget, attribute: String, uuid: UUID },
    ClearEffect { target: EntityTarget, effect: Option<String> },
    GiveEffect {
        target: EntityTarget,
        effect: String,
        duration: EffectDuration,
        amplifier: u8,
        hide_particles: bool,
    },
}


/// The text of a truth value
pub open spec fn bool_text(b: bool) -> Seq<char> {
    if b {
        "true"@
    } else {
        "false"@
    }
}

/// The name of a game mode in debug text
pub open spec fn gamemode_name(g: Gamemode) -> Seq<char> {
    match g {
        Gamemode::Survival => "Survival"@,
        Gamemode::Creative => "Creative"@,
        Gamemode::Adventure => "Adventure"@,
        Gamemode::Spectator => "Spectator"@,
    }
}

/// The name of a selector order in debug text
pub open spec fn sort_name(s: SelectorSort) -> Seq<char> {
    match s {
        SelectorSort::Nearest => "Nearest"@,
        SelectorSort::Furthest => "Furthest"@,
        SelectorSort::Random => "Random"@,
        SelectorSort::Arbitrary => "Arbitrary"@,
    }
}

/// The debug text of a selector parameter: its variant, then its fields by
/// name, strings quoted
pub open spec fn param_debug(p: SelectorParameter) -> Seq<char> {
    match p {
        SelectorParameter::Type { ty, invert } => "Type { ty: "@ + str_debug(ty@) + ", invert: "@ + bool_text(invert)
            + " }"@,
        SelectorParameter::Tag { tag, invert } => "Tag { tag: "@ + str_debug(tag@) + ", invert: "@ + bool_text(invert)
            + " }"@,
        SelectorParameter::NoTags => "NoTags"@,
        SelectorParameter::Predicate { predicate, invert } => "Predicate { predicate: "@ + str_debug(predicate@)
            + ", invert: "@ + bool_text(invert) + " }"@,
        SelectorParameter::Gamemode { gamemode, invert } => "Gamemode { gamemode: "@ + gamemode_name(gamemode)
            + ", invert: "@ + bool_text(invert) + " }"@,
        SelectorParameter::Name { name, invert } => "Name { name: "@ + str_debug(name@) + ", invert: "@ + bool_text(
            invert,
        ) + " }"@,
        SelectorParameter::Limit(n) => "Limit("@ + decimal(n as nat) + ")"@,
        SelectorParameter::Sort(s) => "Sort("@ + sort_name(s) + ")"@,
    }
}

/// The debug text of a target: a player's name, or the selector type with
/// the debug text of its parameters in brackets, separated by commas
pub open spec fn target_debug(t: EntityTarget) -> Seq<char> {
    match t {
        EntityTarget::Player(p) => p@,
        EntityTarget::Selector(sel) => if sel.params@.len() == 0 {
            sel.selector.text()
        } else {
            sel.selector.text() + "["@ + join_with(sel.params@.map_values(|p: SelectorParameter| param_debug(p)), ',')
                + "]"@
        },
    }
}

/// Items separated by a comma and a space
pub open spec fn comma_list(items: Seq<Seq<char>>) -> Seq<char>
    decreases items.len(),
{
    if items.len() == 0 {
        Seq::empty()
    } else if items.len() == 1 {
        items[0]
    } else {
        comma_list(items.drop_last()) + ", "@ + items.last()
    }
}

/// The debug text of a list of targets: in brackets, separated by a comma
/// and a space
pub open spec fn targets_debug(ts: Seq<EntityTarget>) -> Seq<char> {
    "["@ + comma_list(ts.map_values(|t: EntityTarget| target_debug(t))) + "]"@
}

/// The debug text of an optional string: `None`, or the quoted string in
/// `Some(..)`
pub open spec fn opt_str_debug(o: Option<String>) -> Seq<char> {
    match o {
        Some(s) => "Some("@ + str_debug(s@) + ")"@,
        None => "None"@,
    }
}

/// The debug text of a biome fill: both corners, the quoted biome, and the
/// quoted biome to replace after `repl` where there is one
pub open spec fn fill_biome_debug(d: FillBiomeData) -> Seq<char> {
    d.start.text() + " "@ + d.end.text() + " "@ + str_debug(d.biome@) + match d.replace {
        Some(r) => " repl "@ + str_debug(r@),
        None => Seq::empty(),
    }
}

/// Words separated by spaces, each after a space of its own
pub open spec fn spaced(args: Seq<Seq<char>>) -> Seq<char>
    decreases args.len(),
{
    if args.len() == 0 {
        Seq::empty()
    } else {
        spaced(args.drop_last()) + " "@ + args.last()
    }
}

impl MinecraftInstr {
    /// The short name that the debug text of a command starts with
    pub open spec fn debug_name(self) -> Seq<char> {
        match self {
            MinecraftInstr::SetGameruleBool { .. } => "grsb"@,
            MinecraftInstr::SetGameruleInt { .. } => "grsi"@,
            MinecraftInstr::GetGamerule { .. } => "grg"@,
            MinecraftInstr::Say { .. } => "say"@,
            MinecraftInstr::Tell { .. } => "tell"@,
            MinecraftInstr::Me { .. } => "me"@,
            MinecraftInstr::TeamMessage { .. } => "tm"@,
            MinecraftInstr::ListPlayers => "lsp"@,
            MinecraftInstr::StopServer => "stop"@,
            MinecraftInstr::BanPlayers { .. } => "ban"@,
            MinecraftInstr::BanIP { .. } => "bani"@,
            MinecraftInstr::PardonPlayers { .. } => "par"@,
            MinecraftInstr::PardonIP { .. } => "pari"@,
            MinecraftInstr::Banlist => "banl"@,
            MinecraftInstr::Op { .. } => "op"@,
            MinecraftInstr::Deop { .. } => "deop"@,
            MinecraftInstr::WhitelistAdd { .. } => "wla"@,
            MinecraftInstr::WhitelistRemove { .. } => "wlr"@,
            MinecraftInstr::WhitelistOn => "wlon"@,
            MinecraftInstr::WhitelistOff => "wloff"@,
            MinecraftInstr::WhitelistReload => "wlrl"@,
            MinecraftInstr::WhitelistList => "wll"@,
            MinecraftInstr::Publish => "pub"@,
            MinecraftInstr::Kick { .. } => "kick"@,
            MinecraftInstr::Kill { .. } => "kill"@,
            MinecraftInstr::SetXP { .. } => "xps"@,
            MinecraftInstr::AddXP { .. } => "xpa"@,
            MinecraftInstr::GetXP { .. } => "xpg"@,
            MinecraftInstr::Enchant { .. } => "ench"@,
            MinecraftInstr::Seed => "seed"@,
            MinecraftInstr::GetDifficulty => "diffg"@,
            MinecraftInstr::SetDifficulty { .. } => "diffs"@,
            MinecraftInstr::Reload => "rl"@,
            MinecraftInstr::StopSound => "stops"@,
            MinecraftInstr::FillBiome { .. } => "fillb"@,
            MinecraftInstr::SetTimePreset { .. } => "timp"@,
            MinecraftInstr::GetTime { .. } => "timg"@,
            MinecraftInstr::AddTag { .. } => "taga"@,
            MinecraftInstr::RemoveTag { .. } => "tagr"@,
            MinecraftInstr::ListTags { .. } => "tagl"@,
            MinecraftInstr::RideMount { .. } => "mnt"@,
            MinecraftInstr::RideDismount { .. } => "dmnt"@,
            MinecraftInstr::Spectate { .. } => "spec"@,
            MinecraftInstr::SpectateStop => "specs"@,
            MinecraftInstr::SetGamemode { .. } => "setgm"@,
            MinecraftInstr::DefaultGamemode { .. } => "dgm"@,
            MinecraftInstr::TeleportToEntity { .. } => "tpe"@,
            MinecraftInstr::AddScoreboardObjective { .. } => "sboa"@,
            MinecraftInstr::RemoveScoreboardObjective { .. } => "sbor"@,
            MinecraftInstr::ListScoreboardObjectives => "sbol"@,
            MinecraftInstr::TriggerAdd { .. } => "trga"@,
            MinecraftInstr::TriggerSet { .. } => "trgs"@,
            MinecraftInstr::DisableDatapack { .. } => "dpd"@,
            MinecraftInstr::EnableDatapack { .. } => "dpe"@,
            MinecraftInstr::ListPlayerUUIDs => "lspu"@,
            MinecraftInstr::RemoveAttributeModifier { .. } => "attrmr"@,
            MinecraftInstr::ClearEffect { .. } => "effc"@,
            MinecraftInstr::GiveEffect { .. } => "effg"@,
        }
    }

    /// The arguments that follow the short name in the debug text of a
    /// command, each after a space
    pub open spec fn debug_args(self) -> Seq<Seq<char>> {
        match self {
            MinecraftInstr::SetGameruleBool { rule, value } => seq![rule@, bool_text(value)],
            MinecraftInstr::SetGameruleInt { rule, value } => seq![rule@, decimal_int(value as int)],
            MinecraftInstr::GetGamerule { rule } => seq![rule@],
            MinecraftInstr::Say { message } => seq![message@],
            MinecraftInstr::Tell { target, message } => seq![target_debug(target), message@],
            MinecraftInstr::Me { message } => seq![message@],
            MinecraftInstr::TeamMessage { message } => seq![message@],
            MinecraftInstr::BanPlayers { targets, reason } => seq![targets_debug(targets@), opt_str_debug(reason)],
            MinecraftInstr::BanIP { target, reason } => seq![target@, opt_str_debug(reason)],
            MinecraftInstr::PardonPlayers { targets } => seq![targets_debug(targets@)],
            MinecraftInstr::PardonIP { target } => seq![target@],
            MinecraftInstr::Op { targets } => seq![targets_debug(targets@)],
            MinecraftInstr::Deop { targets } => seq![targets_debug(targets@)],
            MinecraftInstr::WhitelistAdd { targets } => seq![targets_debug(targets@)],
            MinecraftInstr::WhitelistRemove { targets } => seq![targets_debug(targets@)],
            MinecraftInstr::Kick { targets, reason } => seq![targets_debug(targets@), opt_str_debug(reason)],
            MinecraftInstr::Kill { target } => seq![target_debug(target)],
            MinecraftInstr::SetXP { target, amount, value } => seq![
                target_debug(target),
                decimal_int(amount as int),
                value.text(),
            ],
            MinecraftInstr::AddXP { target, amount, value } => seq![
                target_debug(target),
                decimal_int(amount as int),
                value.text(),
            ],
            MinecraftInstr::GetXP { target, value } => seq![target_debug(target), value.text()],
            MinecraftInstr::Enchant { target, enchantment, level } => seq![
                target_debug(target),
                enchantment@,
                decimal_int(level as int),
            ],
            MinecraftInstr::SetDifficulty { difficulty } => seq![difficulty.text()],
            MinecraftInstr::FillBiome { data } => seq![fill_biome_debug(data)],
            MinecraftInstr::SetTimePreset { time } => seq![time.text()],
            MinecraftInstr::GetTime { query } => seq![query.text()],
            MinecraftInstr::AddTag { target, tag } => seq![target_debug(target), tag@],
            MinecraftInstr::RemoveTag { target, tag } => seq![target_debug(target), tag@],
            MinecraftInstr::ListTags { target } => seq![target_debug(target)],
            MinecraftInstr::RideMount { target, vehicle } => seq![target_debug(target), target_debug(vehicle)],
            MinecraftInstr::RideDismount { target } => seq![target_debug(target)],
            MinecraftInstr::Spectate { target, spectator } => seq![target_debug(target), target_debug(spectator)],
            MinecraftInstr::SetGamemode { target, gamemode } => seq![target_debug(target), gamemode.text()],
            MinecraftInstr::DefaultGamemode { gamemode } => seq![gamemode.text()],
            MinecraftInstr::TeleportToEntity { source, dest } => seq![target_debug(source), target_debug(dest)],
            MinecraftInstr::AddScoreboardObjective { objective, criterion, display_name } => seq![
                objective@,
                criterion.text(),
                opt_str_debug(display_name),
            ],
            MinecraftInstr::RemoveScoreboardObjective { objective } => seq![objective@],
            MinecraftInstr::TriggerAdd { objective, amount } => seq![objective@ + ","@, decimal_int(amount as int)],
            MinecraftInstr::TriggerSet { objective, amount } => seq![objective@ + ","@, decimal_int(amount as int)],
            MinecraftInstr::DisableDatapack { pack } => seq![pack@],
            MinecraftInstr::EnableDatapack { pack } => seq![pack@],
            MinecraftInstr::RemoveAttributeModifier { target, attribute, uuid } => seq![
                target_debug(target),
                attribute@,
                "UUID("@ + str_debug(uuid.0@) + ")"@,
            ],
            MinecraftInstr::ClearEffect { target, effect } => seq![target_debug(target), opt_str_debug(effect)],
            MinecraftInstr::GiveEffect { target, effect, duration, amplifier, hide_particles } => seq![
                target_debug(target),
                effect@,
                duration.text(),
                decimal(amplifier as nat),
                bool_text(hide_particles),
            ],
            _ => Seq::empty(),
        }
    }

    /// The debug text of a command: its short name, then its arguments
    pub open spec fn debug_repr(self) -> Seq<char> {
        self.debug_name() + spaced(self.debug_args())
    }
}

fn bool_str(b: bool) -> (r: &'static str)
    ensures
        r@ == bool_text(b),
{
    if b {
        "true"
    } else {
        "false"
    }
}

fn gamemode_name_str(g: &Gamemode) -> (r: &'static str)
    ensures
        r@ == gamemode_name(*g),
{
    match g {
        Gamemode::Survival => "Survival",
        Gamemode::Creative => "Creative",
        Gamemode::Adventure => "Adventure",
        Gamemode::Spectator => "Spectator",
    }
}

fn sort_name_str(s: &SelectorSort) -> (r: &'static str)
    ensures
        r@ == sort_name(*s),
{
    match s {
        SelectorSort::Nearest => "Nearest",
        SelectorSort::Furthest => "Furthest",
        SelectorSort::Random => "Random",
        SelectorSort::Arbitrary => "Arbitrary",
    }
}

/// Writes the debug text of a selector parameter
pub fn param_debug_string(p: &SelectorParameter) -> (r: String)
    ensures
        r@ == param_debug(*p),
{
    let mut out = String::new();
    match p {
        SelectorParameter::Type { ty, invert } => {
            push_str(&mut out, "Type { ty: ");
            push_str(&mut out, debug_quoted(ty.as_str()).as_str());
            push_str(&mut out, ", invert: ");
            push_str(&mut out, bool_str(*invert));
            push_str(&mut out, " }");
        },
        SelectorParameter::Tag { tag, invert } => {
            push_str(&mut out, "Tag { tag: ");
            push_str(&mut out, debug_quoted(tag.as_str()).as_str());
            push_str(&mut out, ", invert: ");
            push_str(&mut out, bool_str(*invert));
            push_str(&mut out, " }");
        },
        SelectorParameter::NoTags => {
            push_str(&mut out, "NoTags");
        },
        SelectorParameter::Predicate { predicate, invert } => {
            push_str(&mut out, "Predicate { predicate: ");
            push_str(&mut out, debug_quoted(predicate.as_str()).as_str());
            push_str(&mut out, ", invert: ");
            push_str(&mut out, bool_str(*invert));
            push_str(&mut out, " }");
        },
        SelectorParameter::Gamemode { gamemode, invert } => {
            push_str(&mut out, "Gamemode { gamemode: ");
            push_str(&mut out, gamemode_name_str(gamemode));
            push_str(&mut out, ", invert: ");
            push_str(&mut out, bool_str(*invert));
            push_str(&mut out, " }");
        },
        SelectorParameter::Name { name, invert } => {
            push_str(&mut out, "Name { name: ");
            push_str(&mut out, debug_quoted(name.as_str()).as_str());
            push_str(&mut out, ", invert: ");
            push_str(&mut out, bool_str(*invert));
            push_str(&mut out, " }");
        },
        SelectorParameter::Limit(n) => {
            push_str(&mut out, "Limit(");
            push_decimal(&mut out, *n as u64);
            push_str(&mut out, ")");
        },
        SelectorParameter::Sort(s) => {
            push_str(&mut out, "Sort(");
            push_str(&mut out, sort_name_str(s));
            push_str(&mut out, ")");
        },
    }
    assert(out@ =~= param_debug(*p));
    out
}

/// Writes the debug text of a target
pub fn target_debug_string(t: &EntityTarget) -> (r: String)
    ensures
        r@ == target_debug(*t),
{
    match t {
        EntityTarget::Player(p) => p.clone(),
        EntityTarget::Selector(sel) => {
            let mut out = String::new();
            push_str(&mut out, sel.selector.codegen_str());
            if sel.params.len() == 0 {
                assert(out@ =~= target_debug(*t));
                return out;
            }
            push_str(&mut out, "[");
            let ghost head = out@;
            let ghost views = sel.params@.map_values(|p: SelectorParameter| param_debug(p));
            let mut i: usize = 0;
            while i < sel.params.len()
                invariant
                    i <= sel.params@.len(),
                    views == sel.params@.map_values(|p: SelectorParameter| param_debug(p)),
                    out@ == head + join_with(views.take(i as int), ','),
                decreases sel.params.len() - i,
            {
                let ghost before = out@;
                if i != 0 {
                    push_char(&mut out, ',');
                }
                let s = param_debug_string(&sel.params[i]);
                push_str(&mut out, s.as_str());
                proof {
                    let v = views.take(i as int + 1);
                    assert(v.drop_last() =~= views.take(i as int));
                    assert(v.last() == param_debug(sel.params@[i as int]));
                    if i == 0 {
                        assert(join_with(v, ',') == v[0]);
                        assert(out@ =~= head + join_with(v, ','));
                    } else {
                        assert(out@ =~= head + join_with(v, ','));
                    }
                }
                i = i + 1;
            }
            assert(views.take(sel.params@.len() as int) =~= views);
            push_str(&mut out, "]");
            assert(out@ =~= target_debug(*t));
            out
        },
    }
}

/// Writes the debug text of a list of targets
pub fn targets_debug_string(ts: &Vec<EntityTarget>) -> (r: String)
    ensures
        r@ == targets_debug(ts@),
{
    let mut out = String::new();
    push_str(&mut out, "[");
    let ghost head = out@;
    let ghost views = ts@.map_values(|t: EntityTarget| target_debug(t));
    let mut i: usize = 0;
    while i < ts.len()
        invariant
            i <= ts@.len(),
            views == ts@.map_values(|t: EntityTarget| target_debug(t)),
            out@ == head + comma_list(views.take(i as int)),
        decreases ts.len() - i,
    {
        if i != 0 {
            push_str(&mut out, ", ");
        }
        let s = target_debug_string(&ts[i]);
        push_str(&mut out, s.as_str());
        proof {
            let v = views.take(i as int + 1);
            assert(v.drop_last() =~= views.take(i as int));
            assert(v.last() == target_debug(ts@[i as int]));
            assert(out@ =~= head + comma_list(v));
        }
        i = i + 1;
    }
    assert(views.take(ts@.len() as int) =~= views);
    push_str(&mut out, "]");
    assert(out@ =~= targets_debug(ts@));
    out
}

/// Writes the debug text of an optional string
pub fn opt_str_debug_string(o: &Option<String>) -> (r: String)
    ensures
        r@ == opt_str_debug(*o),
{
    match o {
        Some(s) => {
            let mut out = String::new();
            push_str(&mut out, "Some(");
            push_str(&mut out, debug_quoted(s.as_str()).as_str());
            push_str(&mut out, ")");
            assert(out@ =~= opt_str_debug(*o));
            out
        },
        None => {
            let out = String::from_str("None");
            out
        },
    }
}

/// Writes the debug text of a biome fill
pub fn fill_biome_debug_string(d: &FillBiomeData) -> (r: String)
    ensures
        r@ == fill_biome_debug(*d),
{
    let mut out = d.start.codegen_str();
    push_str(&mut out, " ");
    push_str(&mut out, d.end.codegen_str().as_str());
    push_str(&mut out, " ");
    push_str(&mut out, debug_quoted(d.biome.as_str()).as_str());
    match &d.replace {
        Some(r) => {
            push_str(&mut out, " repl ");
            push_str(&mut out, debug_quoted(r.as_str()).as_str());
        },
        None => {},
    }
    assert(out@ =~= fill_biome_debug(*d));
    out
}

fn one_arg(a: String) -> (r: Vec<String>)
    ensures
        string_views(r@) == seq![a@],
{
    let mut v: Vec<String> = Vec::new();
    v.push(a);
    assert(string_views(v@) =~= seq![a@]);
    v
}

fn two_args(a: String, b: String) -> (r: Vec<String>)
    ensures
        string_views(r@) == seq![a@, b@],
{
    let mut v: Vec<String> = Vec::new();
    v.push(a);
    v.push(b);
    assert(string_views(v@) =~= seq![a@, b@]);
    v
}

fn three_args(a: String, b: String, c: String) -> (r: Vec<String>)
    ensures
        string_views(r@) == seq![a@, b@, c@],
{
    let mut v: Vec<String> = Vec::new();
    v.push(a);
    v.push(b);
    v.push(c);
    assert(string_views(v@) =~= seq![a@, b@, c@]);
    v
}

impl MinecraftInstr {
    /// The short name and the arguments of the debug text of a command
    fn debug_parts(&self) -> (r: (&'static str, Vec<String>))
        ensures
            r.0@ == self.debug_name(),
            string_views(r.1@) == self.debug_args(),
    {
        match self {
            MinecraftInstr::SetGameruleBool { rule, value } => ("grsb", two_args(rule.clone(), String::from_str(bool_str(*value)))),
            MinecraftInstr::SetGameruleInt { rule, value } => ("grsi", two_args(rule.clone(), i64_to_string(*value as i64))),
            MinecraftInstr::GetGamerule { rule } => ("grg", one_arg(rule.clone())),
            MinecraftInstr::Say { message } => ("say", one_arg(message.clone())),
            MinecraftInstr::Tell { target, message } => ("tell", two_args(target_debug_string(target), message.clone())),
            MinecraftInstr::Me { message } => ("me", one_arg(message.clone())),
            MinecraftInstr::TeamMessage { message } => ("tm", one_arg(message.clone())),
            MinecraftInstr::ListPlayers => ("lsp", Vec::new()),
            MinecraftInstr::StopServer => ("stop", Vec::new()),
            MinecraftInstr::BanPlayers { targets, reason } => ("ban", two_args(targets_debug_string(targets), opt_str_debug_string(reason))),
            MinecraftInstr::BanIP { target, reason } => ("bani", two_args(target.clone(), opt_str_debug_string(reason))),
            MinecraftInstr::PardonPlayers { targets } => ("par", one_arg(targets_debug_string(targets))),
            MinecraftInstr::PardonIP { target } => ("pari", one_arg(target.clone())),
            MinecraftInstr::Banlist => ("banl", Vec::new()),
            MinecraftInstr::Op { targets } => ("op", one_arg(targets_debug_string(targets))),
            MinecraftInstr::Deop { targets } => ("deop", one_arg(targets_debug_string(targets))),
            MinecraftInstr::WhitelistAdd { targets } => ("wla", one_arg(targets_debug_string(targets))),
            MinecraftInstr::WhitelistRemove { targets } => ("wlr", one_arg(targets_debug_string(targets))),
            MinecraftInstr::WhitelistOn => ("wlon", Vec::new()),
            MinecraftInstr::WhitelistOff => ("wloff", Vec::new()),
            MinecraftInstr::WhitelistReload => ("wlrl", Vec::new()),
            MinecraftInstr::WhitelistList => ("wll", Vec::new()),
            MinecraftInstr::Publish => ("pub", Vec::new()),
            MinecraftInstr::Kick { targets, reason } => ("kick", two_args(targets_debug_string(targets), opt_str_debug_string(reason))),
            MinecraftInstr::Kill { target } => ("kill", one_arg(target_debug_string(target))),
            MinecraftInstr::SetXP { target, amount, value } => ("xps", three_args(target_debug_string(target), i64_to_string(*amount as i64), String::from_str(value.codegen_str()))),
            MinecraftInstr::AddXP { target, amount, value } => ("xpa", three_args(target_debug_string(target), i64_to_string(*amount as i64), String::from_str(value.codegen_str()))),
            MinecraftInstr::GetXP { target, value } => ("xpg", two_args(target_debug_string(target), String::from_str(value.codegen_str()))),
            MinecraftInstr::Enchant { target, enchantment, level } => ("ench", three_args(target_debug_string(target), enchantment.clone(), i64_to_string(*level as i64))),
            MinecraftInstr::Seed => ("seed", Vec::new()),
            MinecraftInstr::GetDifficulty => ("diffg", Vec::new()),
            MinecraftInstr::SetDifficulty { difficulty } => ("diffs", one_arg(String::from_str(difficulty.codegen_str()))),
            MinecraftInstr::Reload => ("rl", Vec::new()),
            MinecraftInstr::StopSound => ("stops", Vec::new()),
            MinecraftInstr::FillBiome { data } => ("fillb", one_arg(fill_biome_debug_string(data))),
            MinecraftInstr::SetTimePreset { time } => ("timp", one_arg(String::from_str(time.codegen_str()))),
            MinecraftInstr::GetTime { query } => ("timg", one_arg(String::from_str(query.codegen_str()))),
            MinecraftInstr::AddTag { target, tag } => ("taga", two_args(target_debug_string(target), tag.clone())),
            MinecraftInstr::RemoveTag { target, tag } => ("tagr", two_args(target_debug_string(target), tag.clone())),
            MinecraftInstr::ListTags { target } => ("tagl", one_arg(target_debug_string(target))),
            MinecraftInstr::RideMount { target, vehicle } => ("mnt", two_args(target_debug_string(target), target_debug_string(vehicle))),
            MinecraftInstr::RideDismount { target } => ("dmnt", one_arg(target_debug_string(target))),
            MinecraftInstr::Spectate { target, spectator } => ("spec", two_args(target_debug_string(target), target_debug_string(spectator))),
            MinecraftInstr::SpectateStop => ("specs", Vec::new()),
            MinecraftInstr::SetGamemode { target, gamemode } => ("setgm", two_args(target_debug_string(target), String::from_str(gamemode.codegen_str()))),
            MinecraftInstr::DefaultGamemode { gamemode } => ("dgm", one_arg(String::from_str(gamemode.codegen_str()))),
            MinecraftInstr::TeleportToEntity { source, dest } => ("tpe", two_args(target_debug_string(source), target_debug_string(dest))),
            MinecraftInstr::AddScoreboardObjective { objective, criterion, display_name } => ("sboa", three_args(objective.clone(), criterion.gen_str(), opt_str_debug_string(display_name))),
            MinecraftInstr::RemoveScoreboardObjective { objective } => ("sbor", one_arg(objective.clone())),
            MinecraftInstr::ListScoreboardObjectives => ("sbol", Vec::new()),
            MinecraftInstr::TriggerAdd { objective, amount } => {
                let mut o = objective.clone();
                push_char(&mut o, ',');
                assert(o@ =~= objective@ + ","@) by { reveal_strlit(","); }
                ("trga", two_args(o, i64_to_string(*amount as i64)))
            },
            MinecraftInstr::TriggerSet { objective, amount } => {
                let mut o = objective.clone();
                push_char(&mut o, ',');
                assert(o@ =~= objective@ + ","@) by { reveal_strlit(","); }
                ("trgs", two_args(o, i64_to_string(*amount as i64)))
            },
            MinecraftInstr::DisableDatapack { pack } => ("dpd", one_arg(pack.clone())),
            MinecraftInstr::EnableDatapack { pack } => ("dpe", one_arg(pack.clone())),
            MinecraftInstr::ListPlayerUUIDs => ("lspu", Vec::new()),
            MinecraftInstr::RemoveAttributeModifier { target, attribute, uuid } => {
                let mut u = String::from_str("UUID(");
                push_str(&mut u, debug_quoted(uuid.0.as_str()).as_str());
                push_str(&mut u, ")");
                assert(u@ =~= "UUID("@ + str_debug(uuid.0@) + ")"@);
                ("attrmr", three_args(target_debug_string(target), attribute.clone(), u))
            },
            MinecraftInstr::ClearEffect { target, effect } => ("effc", two_args(target_debug_string(target), opt_str_debug_string(effect))),
            MinecraftInstr::GiveEffect { target, effect, duration, amplifier, hide_particles } => {
                let mut v = three_args(target_debug_string(target), effect.clone(), duration.gen_str());
                let a = u64_to_string(*amplifier as u64);
                let h = String::from_str(bool_str(*hide_particles));
                let ghost before = string_views(v@);
                v.push(a);
                v.push(h);
                assert(string_views(v@) =~= before.push(a@).push(h@));
                ("effg", v)
            },
        }
    }

    /// The debug text of a command: its short name, then each argument after
    /// a space
    pub fn debug_text(&self) -> (r: String)
        ensures
            r@ == self.debug_repr(),
    {
        let (name, args) = self.debug_parts();
        let ghost views = string_views(args@);
        let mut out = String::from_str(name);
        let mut i: usize = 0;
        while i < args.len()
            invariant
                i <= args@.len(),
                views == string_views(args@),
                views == self.debug_args(),
                name@ == self.debug_name(),
                out@ == name@ + spaced(views.take(i as int)),
            decreases args.len() - i,
        {
            push_char(&mut out, ' ');
            push_str(&mut out, args[i].as_str());
            proof {
                let v = views.take(i as int + 1);
                assert(v.drop_last() =~= views.take(i as int));
                assert(v.last() == args@[i as int]@);
                reveal_strlit(" ");
                assert(out@ =~= name@ + spaced(v));
            }
            i = i + 1;
        }
        assert(views.take(args@.len() as int) =~= views);
        out
    }
}

} // verus!
