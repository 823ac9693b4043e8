//! The editor-facing side of the configuration: a flat set of properties
//! kept in step with the game configuration, bulk updates from a dictionary
//! of settings, custom values and validation per game mode.
//!
//! Signals, file loading and saving stay with the caller; each operation
//! reports what changed.
use vstd::prelude::*;
use vstd::string::*;
use crate::assoc::AssocMap;
use crate::config::{ClientConfig, ConfigValue, ConfigValueView, GameModeConfig, HostConfig};
use crate::core_config::{ConfigurationManager, GameConfiguration};

verus! {

broadcast use vstd::string::group_string_axioms;

/// A dynamically typed value as the editor hands it over; a float is kept as
/// its `f64` bit pattern, any other kind of value is `Other`.
pub enum SettingValue {
    Nil,
    Bool(bool),
    Int(i64),
    Float(u64),
    Str(String),
    Other,
}

/// A setting as plain values.
pub enum SettingValueView {
    Nil,
    Bool(bool),
    Int(i64),
    Float(u64),
    Str(Seq<char>),
    Other,
}

impl View for SettingValue {
    type V = SettingValueView;

    open spec fn view(&self) -> SettingValueView {
        match self {
            SettingValue::Nil => SettingValueView::Nil,
            SettingValue::Bool(b) => SettingValueView::Bool(*b),
            SettingValue::Int(i) => SettingValueView::Int(*i),
            SettingValue::Float(f) => SettingValueView::Float(*f),
            SettingValue::Str(s) => SettingValueView::Str(s@),
            SettingValue::Other => SettingValueView::Other,
        }
    }
}

/// How a stored custom value is read back.
pub open spec fn custom_setting_view(v: ConfigValueView) -> SettingValueView {
    match v {
        ConfigValueView::String(t) => SettingValueView::Str(t),
        ConfigValueView::Integer(i) => SettingValueView::Int(i),
        ConfigValueView::Float(f) => SettingValueView::Float(f),
        ConfigValueView::Boolean(b) => SettingValueView::Bool(b),
    }
}

impl SettingValue {
    pub fn clone(&self) -> (c: Self)
        ensures
            c == *self,
    {
        match self {
            SettingValue::Nil => SettingValue::Nil,
            SettingValue::Bool(b) => SettingValue::Bool(*b),
            SettingValue::Int(i) => SettingValue::Int(*i),
            SettingValue::Float(f) => SettingValue::Float(*f),
            SettingValue::Str(s) => SettingValue::Str(s.clone()),
            SettingValue::Other => SettingValue::Other,
        }
    }

    pub fn is_nil(&self) -> (b: bool)
        ensures
            b == (*self is Nil),
    {
        match self {
            SettingValue::Nil => true,
            _ => false,
        }
    }
}

/// The value a custom setting of that kind is stored as, if any.
pub open spec fn config_value_of(v: SettingValue) -> Option<ConfigValueView> {
    match v {
        SettingValue::Str(s) => Some(ConfigValueView::String(s@)),
        SettingValue::Int(i) => Some(ConfigValueView::Integer(i)),
        SettingValue::Float(f) => Some(ConfigValueView::Float(f)),
        SettingValue::Bool(b) => Some(ConfigValueView::Boolean(b)),
        _ => None,
    }
}

/// `s` is how custom value `v` is read back.
pub open spec fn reads_as(s: SettingValue, v: ConfigValueView) -> bool {
    match v {
        ConfigValueView::String(t) => s matches SettingValue::Str(u) && u@ == t,
        ConfigValueView::Integer(i) => s == SettingValue::Int(i),
        ConfigValueView::Float(f) => s == SettingValue::Float(f),
        ConfigValueView::Boolean(b) => s == SettingValue::Bool(b),
    }
}

/// Setting a custom value that a configuration can hold (text, integer,
/// number or flag) while a configuration manager is attached succeeds, and
/// reading that key back gives the same value; any other setting fails.
pub proof fn lemma_custom_value_read_back<R>(b0: ConfigBridge<R>, b1: ConfigBridge<R>, key: Seq<char>, value: SettingValue, ok: bool)
    requires
        custom_set(b0, b1, key, value, ok),
    ensures
        ok <==> (b0.config_manager is Some && config_value_of(value) is Some),
        ok ==> (b1.config_manager matches Some(m1)
            && m1.current_config.custom_settings.map().dom().contains(key)
            && reads_as(value, m1.current_config.custom_settings.map()[key])),
{
}

/// `b1` is `b0` with custom value `key` set from `value`, with result `ok`.
pub open spec fn custom_set<R>(b0: ConfigBridge<R>, b1: ConfigBridge<R>, key: Seq<char>, value: SettingValue, ok: bool) -> bool {
    match (b0.config_manager, config_value_of(value)) {
        (Some(m0), Some(cv)) => {
            &&& ok
            &&& b1.config_path == b0.config_path
            &&& b1.world_seed == b0.world_seed
            &&& b1.world_width == b0.world_width
            &&& b1.world_height == b0.world_height
            &&& b1.max_players == b0.max_players
            &&& b1.server_port == b0.server_port
            &&& b1.network_mode == b0.network_mode
            &&& b1.server_address == b0.server_address
            &&& b1.debug_mode == b0.debug_mode
            &&& b1.config_manager matches Some(m1)
            &&& m1.wf()
            &&& m1.config_path == m0.config_path
            &&& m1.is_initialized == m0.is_initialized
            &&& m1.current_config.world_seed == m0.current_config.world_seed
            &&& m1.current_config.world_size == m0.current_config.world_size
            &&& m1.current_config.network == m0.current_config.network
            &&& m1.current_config.game_mode == m0.current_config.game_mode
            &&& m1.current_config.generation_rules == m0.current_config.generation_rules
            &&& m1.current_config.custom_settings.map() == m0.current_config.custom_settings.map().insert(key, cv)
        },
        _ => !ok && b1 == b0,
    }
}

/// The properties that mirror the game configuration.
#[derive(Clone, Copy, Debug, PartialEq, Eq, Structural)]
pub enum ConfigProperty {
    WorldSeed,
    WorldWidth,
    WorldHeight,
    MaxPlayers,
    ServerPort,
    NetworkMode,
    ServerAddress,
}

/// The property a name denotes.
pub open spec fn property_of(name: Seq<char>) -> Option<ConfigProperty> {
    if name == "world_seed"@ {
        Some(ConfigProperty::WorldSeed)
    } else if name == "world_width"@ {
        Some(ConfigProperty::WorldWidth)
    } else if name == "world_height"@ {
        Some(ConfigProperty::WorldHeight)
    } else if name == "max_players"@ {
        Some(ConfigProperty::MaxPlayers)
    } else if name == "server_port"@ {
        Some(ConfigProperty::ServerPort)
    } else if name == "network_mode"@ {
        Some(ConfigProperty::NetworkMode)
    } else if name == "server_address"@ {
        Some(ConfigProperty::ServerAddress)
    } else {
        None
    }
}

/// The property named `name`, if any.
pub fn parse_property(name: &str) -> (p: Option<ConfigProperty>)
    ensures
        p == property_of(name@),
{
    let n = String::from_str(name);
    if n == String::from_str("world_seed") {
        Some(ConfigProperty::WorldSeed)
    } else if n == String::from_str("world_width") {
        Some(ConfigProperty::WorldWidth)
    } else if n == String::from_str("world_height") {
        Some(ConfigProperty::WorldHeight)
    } else if n == String::from_str("max_players") {
        Some(ConfigProperty::MaxPlayers)
    } else if n == String::from_str("server_port") {
        Some(ConfigProperty::ServerPort)
    } else if n == String::from_str("network_mode") {
        Some(ConfigProperty::NetworkMode)
    } else if n == String::from_str("server_address") {
        Some(ConfigProperty::ServerAddress)
    } else {
        None
    }
}

/// The editor properties and the configuration they mirror. The network mode
/// is 0 standalone, 1 host, 2 client.
pub struct ConfigBridge<R> {
    pub config_manager: Option<ConfigurationManager<R>>,
    pub config_path: String,
    pub world_seed: i64,
    pub world_width: i32,
    pub world_height: i32,
    pub max_players: i32,
    pub server_port: i32,
    pub network_mode: i32,
    pub server_address: String,
    pub debug_mode: bool,
}

/// Whether writing property `p` into configuration `c` succeeds.
pub open spec fn property_succeeds<R>(c: GameConfiguration<R>, b: ConfigBridge<R>, p: ConfigProperty) -> bool {
    match p {
        ConfigProperty::NetworkMode => 0 <= b.network_mode <= 2,
        ConfigProperty::ServerAddress => c.game_mode is Client,
        _ => true,
    }
}

/// Configuration `n` is configuration `c` with property `p` written from `b`.
pub open spec fn property_applied<R>(c: GameConfiguration<R>, n: GameConfiguration<R>, b: ConfigBridge<R>, p: ConfigProperty) -> bool {
    let same_seed = n.world_seed == c.world_seed;
    let same_size = n.world_size == c.world_size;
    let same_net = n.network == c.network;
    let same_mode = n.game_mode == c.game_mode;
    let same_rest = n.generation_rules == c.generation_rules && n.custom_settings == c.custom_settings;
    match p {
        ConfigProperty::WorldSeed => n.world_seed == b.world_seed as u64 && same_size && same_net && same_mode && same_rest,
        ConfigProperty::WorldWidth => n.world_size.width == b.world_width as u32 && n.world_size.height == c.world_size.height
            && same_seed && same_net && same_mode && same_rest,
        ConfigProperty::WorldHeight => n.world_size.height == b.world_height as u32 && n.world_size.width == c.world_size.width
            && same_seed && same_net && same_mode && same_rest,
        ConfigProperty::MaxPlayers => n.network.max_players == b.max_players as u8
            && n.network.server_port == c.network.server_port && n.network.connection_timeout == c.network.connection_timeout
            && same_seed && same_size && same_mode && same_rest,
        ConfigProperty::ServerPort => n.network.server_port == b.server_port as u16
            && n.network.max_players == c.network.max_players && n.network.connection_timeout == c.network.connection_timeout
            && same_seed && same_size && same_mode && same_rest,
        ConfigProperty::NetworkMode => same_seed && same_size && same_net && same_rest && (
            if b.network_mode == 0 {
                n.game_mode is Standalone
            } else if b.network_mode == 1 {
                if c.game_mode is Host {
                    same_mode
                } else {
                    n.game_mode == GameModeConfig::Host(HostConfig { world_generation_seed: c.world_seed, admin_password: None })
                }
            } else {
                if c.game_mode is Client {
                    same_mode
                } else {
                    n.game_mode matches GameModeConfig::Client(cc) && cc.server_address == b.server_address && cc.username@ == "Player"@
                }
            }),
        ConfigProperty::ServerAddress => same_seed && same_size && same_net && same_rest && (
            n.game_mode matches GameModeConfig::Client(nc) && c.game_mode matches GameModeConfig::Client(cc)
                && nc.server_address == b.server_address && nc.username == cc.username),
    }
}

/// `b1` is `b0` after writing property `p` into its configuration, with
/// result `ok`.
pub open spec fn synced<R>(b0: ConfigBridge<R>, b1: ConfigBridge<R>, p: ConfigProperty, ok: bool) -> bool {
    &&& b1.config_path == b0.config_path
    &&& b1.world_seed == b0.world_seed
    &&& b1.world_width == b0.world_width
    &&& b1.world_height == b0.world_height
    &&& b1.max_players == b0.max_players
    &&& b1.server_port == b0.server_port
    &&& b1.network_mode == b0.network_mode
    &&& b1.server_address == b0.server_address
    &&& b1.debug_mode == b0.debug_mode
    &&& match b0.config_manager {
        None => !ok && b1.config_manager is None,
        Some(m0) => if property_succeeds(m0.current_config, b0, p) {
            &&& ok
            &&& b1.config_manager matches Some(m1)
            &&& m1.config_path == m0.config_path
            &&& m1.is_initialized == m0.is_initialized
            &&& property_applied(m0.current_config, m1.current_config, b0, p)
        } else {
            !ok && b1.config_manager == b0.config_manager
        },
    }
}


/// Writing an editor property into the configuration and reading the
/// editor properties back from it gives the property's value again, for a
/// player count that fits in 8 bits and a port that fits in 16.
pub proof fn lemma_sync_read_back<R>(b0: ConfigBridge<R>, b1: ConfigBridge<R>, b2: ConfigBridge<R>, p: ConfigProperty, ok: bool)
    requires
        synced(b0, b1, p, ok),
        ok,
        b1.config_manager matches Some(m1) && properties_from(b1, b2, m1.current_config),
        p == ConfigProperty::MaxPlayers ==> 0 <= b0.max_players <= 255,
        p == ConfigProperty::ServerPort ==> 0 <= b0.server_port <= 65535,
    ensures
        property_value(b2, p) == property_value(b0, p),
{
    let n = b1.config_manager.unwrap().current_config;
    match p {
        ConfigProperty::WorldSeed => {
            let v = b0.world_seed;
            assert((v as u64) as i64 == v) by (bit_vector);
        },
        ConfigProperty::WorldWidth => {
            let v = b0.world_width;
            assert((v as u32) as i32 == v) by (bit_vector);
        },
        ConfigProperty::WorldHeight => {
            let v = b0.world_height;
            assert((v as u32) as i32 == v) by (bit_vector);
        },
        ConfigProperty::MaxPlayers => {
            let v = b0.max_players;
            assert((v as u8) as i32 == v) by (bit_vector)
                requires
                    0 <= v <= 255,
            ;
        },
        ConfigProperty::ServerPort => {
            let v = b0.server_port;
            assert((v as u16) as i32 == v) by (bit_vector)
                requires
                    0 <= v <= 65535,
            ;
        },
        _ => {},
    }
}

/// Bridge `b` with an integer property set to `v` in the editor.
pub open spec fn with_int_property<R>(b: ConfigBridge<R>, p: ConfigProperty, v: i32) -> ConfigBridge<R> {
    match p {
        ConfigProperty::WorldWidth => ConfigBridge { world_width: v, ..b },
        ConfigProperty::WorldHeight => ConfigBridge { world_height: v, ..b },
        ConfigProperty::MaxPlayers => ConfigBridge { max_players: v, ..b },
        ConfigProperty::ServerPort => ConfigBridge { server_port: v, ..b },
        ConfigProperty::NetworkMode => ConfigBridge { network_mode: v, ..b },
        _ => b,
    }
}

/// `b1` is `b0` after applying one dictionary entry, with result `ok`: a
/// known property takes a value of its type and is written into the
/// configuration, any other name is a custom value; a key that is not a
/// string fails.
pub open spec fn setting_step<R>(b0: ConfigBridge<R>, b1: ConfigBridge<R>, key: SettingValue, value: SettingValue, ok: bool) -> bool {
    match key {
        SettingValue::Str(k) => match property_of(k@) {
            Some(ConfigProperty::WorldSeed) => match value {
                SettingValue::Int(v) => synced(ConfigBridge { world_seed: v, ..b0 }, b1, ConfigProperty::WorldSeed, ok),
                _ => !ok && b1 == b0,
            },
            Some(ConfigProperty::ServerAddress) => match value {
                SettingValue::Str(a) => synced(ConfigBridge { server_address: a, ..b0 }, b1, ConfigProperty::ServerAddress, ok),
                _ => !ok && b1 == b0,
            },
            Some(p) => match value {
                SettingValue::Int(v) if i32::MIN <= v <= i32::MAX => synced(with_int_property(b0, p, v as i32), b1, p, ok),
                _ => !ok && b1 == b0,
            },
            None => custom_set(b0, b1, k@, value, ok),
        },
        _ => !ok && b1 == b0,
    }
}

/// The text of a string key.
pub open spec fn key_text(k: SettingValue) -> Seq<char> {
    match k {
        SettingValue::Str(s) => s@,
        _ => Seq::empty(),
    }
}

/// The names of the entries that were applied, in order.
pub open spec fn ok_names(entries: Seq<(SettingValue, SettingValue)>, oks: Seq<bool>) -> Seq<Seq<char>>
    decreases entries.len(),
{
    if entries.len() == 0 || oks.len() == 0 {
        Seq::empty()
    } else {
        let prev = ok_names(entries.drop_last(), oks.drop_last());
        if oks.last() {
            prev.push(key_text(entries.last().0))
        } else {
            prev
        }
    }
}

/// `trace` runs from `b0` to `bn` applying the entries one after another,
/// with results `oks`.
pub open spec fn settings_trace<R>(b0: ConfigBridge<R>, bn: ConfigBridge<R>, entries: Seq<(SettingValue, SettingValue)>, trace: Seq<ConfigBridge<R>>, oks: Seq<bool>) -> bool {
    &&& trace.len() == entries.len() + 1
    &&& oks.len() == entries.len()
    &&& trace[0] == b0
    &&& trace[entries.len() as int] == bn
    &&& forall|i: int| 0 <= i < entries.len() ==> #[trigger] setting_step(trace[i], trace[i + 1], entries[i].0, entries[i].1, oks[i])
}

/// Whether the editor properties allow a game in `mode` (-1: the current
/// mode): a seed is needed in every mode, a host needs a port in 1..=65535
/// and a positive player count, a client a server address.
pub open spec fn valid_for_mode<R>(b: ConfigBridge<R>, mode: i32) -> bool {
    let m = if mode < 0 { b.network_mode } else { mode };
    &&& b.world_seed != 0
    &&& if m == 0 {
        true
    } else if m == 1 {
        0 < b.server_port <= 65535 && b.max_players > 0
    } else if m == 2 {
        b.server_address@.len() > 0
    } else {
        false
    }
}

/// What each mode asks of the editor properties: every mode a seed that is
/// not zero; a host also a port in 1..=65535 and a positive player count;
/// a client also a server address; no other mode is valid. A negative mode
/// stands for the configured one.
pub proof fn lemma_valid_for_mode<R>(b: ConfigBridge<R>, mode: i32)
    ensures
        b.world_seed == 0 ==> !valid_for_mode(b, mode),
        (mode == 0 || (mode < 0 && b.network_mode == 0)) ==> valid_for_mode(b, mode) == (b.world_seed != 0),
        (mode == 1 || (mode < 0 && b.network_mode == 1)) ==> valid_for_mode(b, mode) == (b.world_seed != 0
            && 0 < b.server_port && b.server_port <= 65535 && b.max_players > 0),
        (mode == 1 || (mode < 0 && b.network_mode == 1)) && b.max_players <= 0 ==> !valid_for_mode(b, mode),
        (mode == 2 || (mode < 0 && b.network_mode == 2)) ==> valid_for_mode(b, mode) == (b.world_seed != 0
            && b.server_address@.len() > 0),
        (mode > 2 || (mode < 0 && (b.network_mode < 0 || b.network_mode > 2))) ==> !valid_for_mode(b, mode),
{
}

/// The network mode number of a game mode.
pub open spec fn mode_number(g: GameModeConfig) -> i32 {
    match g {
        GameModeConfig::Standalone => 0,
        GameModeConfig::Host(_) => 1,
        GameModeConfig::Client(_) => 2,
    }
}

/// `b1` is `b0` with its editor properties read from configuration `c`.
pub open spec fn properties_from<R>(b0: ConfigBridge<R>, b1: ConfigBridge<R>, c: GameConfiguration<R>) -> bool {
    &&& b1.world_seed == c.world_seed as i64
    &&& b1.world_width == c.world_size.width as i32
    &&& b1.world_height == c.world_size.height as i32
    &&& b1.max_players == c.network.max_players as i32
    &&& b1.server_port == c.network.server_port as i32
    &&& b1.network_mode == mode_number(c.game_mode)
    &&& b1.server_address == (match c.game_mode {
        GameModeConfig::Client(cc) => cc.server_address,
        _ => b0.server_address,
    })
    &&& b1.config_path == b0.config_path
    &&& b1.debug_mode == b0.debug_mode
}

/// The value of property `p` in the editor.
pub open spec fn property_value<R>(b: ConfigBridge<R>, p: ConfigProperty) -> SettingValueView {
    match p {
        ConfigProperty::WorldSeed => SettingValueView::Int(b.world_seed),
        ConfigProperty::WorldWidth => SettingValueView::Int(b.world_width as i64),
        ConfigProperty::WorldHeight => SettingValueView::Int(b.world_height as i64),
        ConfigProperty::MaxPlayers => SettingValueView::Int(b.max_players as i64),
        ConfigProperty::ServerPort => SettingValueView::Int(b.server_port as i64),
        ConfigProperty::NetworkMode => SettingValueView::Int(b.network_mode as i64),
        ConfigProperty::ServerAddress => SettingValueView::Str(b.server_address@),
    }
}

/// The value read under name `n`: a property, else a custom value, else nil.
pub open spec fn named_value<R>(b: ConfigBridge<R>, n: Seq<char>) -> SettingValueView {
    match property_of(n) {
        Some(p) => property_value(b, p),
        None => match b.config_manager {
            Some(m) if m.current_config.custom_settings.map().dom().contains(n) =>
                custom_setting_view(m.current_config.custom_settings.map()[n]),
            _ => SettingValueView::Nil,
        },
    }
}

/// The editor properties under their names.
pub open spec fn property_dictionary<R>(b: ConfigBridge<R>) -> Map<Seq<char>, SettingValueView> {
    Map::<Seq<char>, SettingValueView>::empty()
        .insert("world_seed"@, property_value(b, ConfigProperty::WorldSeed))
        .insert("world_width"@, property_value(b, ConfigProperty::WorldWidth))
        .insert("world_height"@, property_value(b, ConfigProperty::WorldHeight))
        .insert("max_players"@, property_value(b, ConfigProperty::MaxPlayers))
        .insert("server_port"@, property_value(b, ConfigProperty::ServerPort))
        .insert("network_mode"@, property_value(b, ConfigProperty::NetworkMode))
        .insert("server_address"@, property_value(b, ConfigProperty::ServerAddress))
}

/// The editor properties, then the custom values of the attached
/// configuration, which win over a property of the same name.
pub open spec fn configuration_dictionary<R>(b: ConfigBridge<R>) -> Map<Seq<char>, SettingValueView> {
    match b.config_manager {
        Some(m) => property_dictionary(b).union_prefer_right(
            m.current_config.custom_settings.map().map_values(|v: ConfigValueView| custom_setting_view(v)),
        ),
        None => property_dictionary(b),
    }
}

/// Key `k` is among the first `n` keys.
pub open spec fn string_seen(keys: Seq<String>, n: int, k: Seq<char>) -> bool {
    exists|j: int| 0 <= j < n && keys[j]@ == k
}

/// The dictionary of the values named in `names`: names that are not
/// strings, and names without a value, are left out.
pub open spec fn settings_read<R>(b: ConfigBridge<R>, names: Seq<SettingValue>) -> Map<Seq<char>, SettingValueView>
    decreases names.len(),
{
    if names.len() == 0 {
        Map::empty()
    } else {
        let prev = settings_read(b, names.drop_last());
        match names.last() {
            SettingValue::Str(n) => if named_value(b, n@) is Nil {
                prev
            } else {
                prev.insert(n@, named_value(b, n@))
            },
            _ => prev,
        }
    }
}

impl<R> ConfigBridge<R> {
    pub open spec fn wf(&self) -> bool {
        self.config_manager matches Some(m) ==> m.wf()
    }

    /// A bridge without a configuration: seed 0, a world of 10000 by 10000,
    /// 64 players on port 7878, standalone, server 127.0.0.1:7878.
    pub fn new() -> (b: Self)
        ensures
            b.wf(),
            b.config_manager is None,
            b.config_path@ == "res://game_config.toml"@,
            b.world_seed == 0,
            b.world_width == 10000,
            b.world_height == 10000,
            b.max_players == 64,
            b.server_port == 7878,
            b.network_mode == 0,
            b.server_address@ == "127.0.0.1:7878"@,
            !b.debug_mode,
    {
        ConfigBridge {
            config_manager: None,
            config_path: String::from_str("res://game_config.toml"),
            world_seed: 0,
            world_width: 10000,
            world_height: 10000,
            max_players: 64,
            server_port: 7878,
            network_mode: 0,
            server_address: String::from_str("127.0.0.1:7878"),
            debug_mode: false,
        }
    }

    pub fn is_initialized(&self) -> (b: bool)
        ensures
            b == self.config_manager is Some,
    {
        self.config_manager.is_some()
    }

    /// Sets custom value `key`; a string, integer, float or boolean is
    /// stored, any other value is refused, as is any value without a
    /// configuration.
    pub fn set_custom_value(&mut self, key: String, value: SettingValue) -> (ok: bool)
        requires
            old(self).wf(),
        ensures
            final(self).wf(),
            custom_set(*old(self), *final(self), key@, value, ok),
    {
        match &mut self.config_manager {
            None => false,
            Some(m) => {
                let cv = match value {
                    SettingValue::Str(s) => ConfigValue::String(s),
                    SettingValue::Int(i) => ConfigValue::Integer(i),
                    SettingValue::Float(f) => ConfigValue::Float(f),
                    SettingValue::Bool(b) => ConfigValue::Boolean(b),
                    _ => {
                        return false;
                    },
                };
                m.current_config.custom_settings.insert(key, cv);
                true
            },
        }
    }

    /// The custom value `key`, or nil when it is not set or there is no
    /// configuration.
    pub fn get_custom_value(&self, key: &String) -> (v: SettingValue)
        requires
            self.wf(),
        ensures
            match self.config_manager {
                Some(m) if m.current_config.custom_settings.map().dom().contains(key@) =>
                    reads_as(v, m.current_config.custom_settings.map()[key@]),
                _ => v is Nil,
            },
    {
        match &self.config_manager {
            None => SettingValue::Nil,
            Some(m) => match m.current_config.custom_settings.get(key) {
                None => SettingValue::Nil,
                Some(ConfigValue::String(s)) => SettingValue::Str(s.clone()),
                Some(ConfigValue::Integer(i)) => SettingValue::Int(*i),
                Some(ConfigValue::Float(f)) => SettingValue::Float(*f),
                Some(ConfigValue::Boolean(b)) => SettingValue::Bool(*b),
            },
        }
    }


    /// The value of property `p` in the editor.
    pub fn get_property(&self, p: ConfigProperty) -> (v: SettingValue)
        ensures
            v@ == property_value(*self, p),
    {
        match p {
            ConfigProperty::WorldSeed => SettingValue::Int(self.world_seed),
            ConfigProperty::WorldWidth => SettingValue::Int(self.world_width as i64),
            ConfigProperty::WorldHeight => SettingValue::Int(self.world_height as i64),
            ConfigProperty::MaxPlayers => SettingValue::Int(self.max_players as i64),
            ConfigProperty::ServerPort => SettingValue::Int(self.server_port as i64),
            ConfigProperty::NetworkMode => SettingValue::Int(self.network_mode as i64),
            ConfigProperty::ServerAddress => SettingValue::Str(self.server_address.clone()),
        }
    }

    /// The value read under name `n`; see `named_value`.
    pub fn get_named_value(&self, n: &String) -> (v: SettingValue)
        requires
            self.wf(),
        ensures
            v@ == named_value(*self, n@),
    {
        match parse_property(n.as_str()) {
            Some(p) => self.get_property(p),
            None => {
                let v = self.get_custom_value(n);
                proof {
                    if self.config_manager is Some {
                        let m = self.config_manager->0;
                        if m.current_config.custom_settings.map().dom().contains(n@) {
                            let c = m.current_config.custom_settings.map()[n@];
                            assert(reads_as(v, c));
                        }
                    }
                }
                v
            },
        }
    }

    /// Every editor property under its name, then every custom value under
    /// its key; a custom value under a property's name takes its place.
    pub fn get_configuration_dictionary(&self) -> (d: AssocMap<String, SettingValue>)
        requires
            self.wf(),
        ensures
            d.wf(),
            d.map() == configuration_dictionary(*self),
    {
        let mut d: AssocMap<String, SettingValue> = AssocMap::new();
        d.insert(String::from_str("world_seed"), self.get_property(ConfigProperty::WorldSeed));
        d.insert(String::from_str("world_width"), self.get_property(ConfigProperty::WorldWidth));
        d.insert(String::from_str("world_height"), self.get_property(ConfigProperty::WorldHeight));
        d.insert(String::from_str("max_players"), self.get_property(ConfigProperty::MaxPlayers));
        d.insert(String::from_str("server_port"), self.get_property(ConfigProperty::ServerPort));
        d.insert(String::from_str("network_mode"), self.get_property(ConfigProperty::NetworkMode));
        d.insert(String::from_str("server_address"), self.get_property(ConfigProperty::ServerAddress));
        let ghost base = d.map();
        proof {
            assert(base == property_dictionary(*self));
        }
        match &self.config_manager {
            None => {},
            Some(m) => {
                let custom = &m.current_config.custom_settings;
                let ghost cm = custom.map();
                let keys = custom.keys();
                let mut i: usize = 0;
                while i < keys.len()
                    invariant
                        custom.wf(),
                        cm == custom.map(),
                        d.wf(),
                        i <= keys@.len(),
                        forall|a: int| 0 <= a < keys@.len() ==> cm.dom().contains(#[trigger] keys@[a]@),
                        forall|k: Seq<char>| cm.dom().contains(k) ==> exists|a: int| 0 <= a < keys@.len() && keys@[a]@ == k,
                        d.map() == Map::new(
                            |k: Seq<char>| base.dom().contains(k) || string_seen(keys@, i as int, k),
                            |k: Seq<char>| if string_seen(keys@, i as int, k) { custom_setting_view(cm[k]) } else { base[k] },
                        ),
                    decreases keys@.len() - i,
                {
                    let key = &keys[i];
                    match custom.get(key) {
                        Some(v) => {
                            let sv = match v {
                                ConfigValue::String(t) => SettingValue::Str(t.clone()),
                                ConfigValue::Integer(n) => SettingValue::Int(*n),
                                ConfigValue::Float(f) => SettingValue::Float(*f),
                                ConfigValue::Boolean(b) => SettingValue::Bool(*b),
                            };
                            d.insert(key.clone(), sv);
                        },
                        None => {},
                    }
                    proof {
                        let ni = i + 1;
                        assert(cm.dom().contains(key@));
                        assert forall|k: Seq<char>| #[trigger] string_seen(keys@, ni, k) <==> (string_seen(keys@, i as int, k) || k == key@) by {
                            if k == key@ {
                                assert(keys@[i as int]@ == k);
                            }
                            if string_seen(keys@, ni, k) && k != key@ {
                                let j = choose|j: int| 0 <= j < ni && keys@[j]@ == k;
                                assert(j < i);
                            }
                        }
                        assert(d.map() =~= Map::new(
                            |k: Seq<char>| base.dom().contains(k) || string_seen(keys@, ni, k),
                            |k: Seq<char>| if string_seen(keys@, ni, k) { custom_setting_view(cm[k]) } else { base[k] },
                        ));
                    }
                    i = i + 1;
                }
                proof {
                    assert forall|k: Seq<char>| cm.dom().contains(k) implies string_seen(keys@, i as int, k) by {}
                    assert forall|k: Seq<char>| string_seen(keys@, i as int, k) implies cm.dom().contains(k) by {}
                    assert(d.map() =~= base.union_prefer_right(cm.map_values(|v: ConfigValueView| custom_setting_view(v))));
                }
            },
        }
        d
    }

    /// The values named in `property_names`; see `settings_read`.
    pub fn get_multiple_settings(&self, property_names: &Vec<SettingValue>) -> (d: AssocMap<String, SettingValue>)
        requires
            self.wf(),
        ensures
            d.wf(),
            d.map() == settings_read(*self, property_names@),
    {
        let mut d: AssocMap<String, SettingValue> = AssocMap::new();
        let mut i: usize = 0;
        while i < property_names.len()
            invariant
                self.wf(),
                i <= property_names@.len(),
                d.wf(),
                d.map() == settings_read(*self, property_names@.take(i as int)),
            decreases property_names@.len() - i,
        {
            proof {
                assert(property_names@.take(i + 1).drop_last() == property_names@.take(i as int));
            }
            match &property_names[i] {
                SettingValue::Str(n) => {
                    let v = self.get_named_value(n);
                    if !v.is_nil() {
                        d.insert(n.clone(), v);
                    }
                },
                _ => {},
            }
            i = i + 1;
        }
        proof {
            assert(property_names@.take(property_names@.len() as int) == property_names@);
        }
        d
    }

    /// Applies one dictionary entry; see `setting_step`.
    pub fn apply_setting(&mut self, key: &SettingValue, value: SettingValue) -> (ok: bool)
        requires
            old(self).wf(),
        ensures
            final(self).wf(),
            setting_step(*old(self), *final(self), *key, value, ok),
    {
        match key {
            SettingValue::Str(k) => {
                match parse_property(k.as_str()) {
                    Some(ConfigProperty::WorldSeed) => match value {
                        SettingValue::Int(v) => {
                            self.world_seed = v;
                            self.sync_property(ConfigProperty::WorldSeed)
                        },
                        _ => false,
                    },
                    Some(ConfigProperty::ServerAddress) => match value {
                        SettingValue::Str(a) => {
                            self.server_address = a;
                            self.sync_property(ConfigProperty::ServerAddress)
                        },
                        _ => false,
                    },
                    Some(p) => match value {
                        SettingValue::Int(v) => {
                            if v < i32::MIN as i64 || v > i32::MAX as i64 {
                                return false;
                            }
                            let v32 = v as i32;
                            match p {
                                ConfigProperty::WorldWidth => { self.world_width = v32; },
                                ConfigProperty::WorldHeight => { self.world_height = v32; },
                                ConfigProperty::MaxPlayers => { self.max_players = v32; },
                                ConfigProperty::ServerPort => { self.server_port = v32; },
                                _ => { self.network_mode = v32; },
                            }
                            self.sync_property(p)
                        },
                        _ => false,
                    },
                    None => self.set_custom_value(k.clone(), value),
                }
            },
            _ => false,
        }
    }

    /// Applies every entry of a dictionary of settings in order, each on its
    /// own (a failed entry does not stop the later ones). Gives back whether
    /// all of them were applied, the names of those that were, and whether
    /// the configuration is now due to be saved: exactly when `save_after`
    /// is set and some entry was applied. Writing the file is the caller's;
    /// `finish_bulk_apply` then gives the final answer.
    pub fn apply_multiple_settings(&mut self, property_map: &Vec<(SettingValue, SettingValue)>, save_after: bool)
        -> (r: BulkApply)
        requires
            old(self).wf(),
        ensures
            final(self).wf(),
            exists|trace: Seq<ConfigBridge<R>>, oks: Seq<bool>| {
                &&& #[trigger] settings_trace(*old(self), *final(self), property_map@, trace, oks)
                &&& r.all_applied == (forall|i: int| 0 <= i < oks.len() ==> oks[i])
                &&& r.applied@.map_values(|n: String| n@) == ok_names(property_map@, oks)
            },
            r.save_due == (save_after && r.applied@.len() > 0),
    {
        let ghost entries = property_map@;
        let ghost mut trace: Seq<ConfigBridge<R>> = seq![*self];
        let ghost mut oks: Seq<bool> = Seq::empty();
        let mut all_successful = true;
        let mut modified: Vec<String> = Vec::new();
        let mut i: usize = 0;
        while i < property_map.len()
            invariant
                self.wf(),
                entries == property_map@,
                i <= entries.len(),
                trace.len() == i + 1,
                oks.len() == i,
                trace[0] == *old(self),
                trace[i as int] == *self,
                forall|j: int| 0 <= j < i ==> #[trigger] setting_step(trace[j], trace[j + 1], entries[j].0, entries[j].1, oks[j]),
                all_successful == (forall|j: int| 0 <= j < i ==> oks[j]),
                modified@.map_values(|n: String| n@) == ok_names(entries.take(i as int), oks),
            decreases entries.len() - i,
        {
            let key = &property_map[i].0;
            let value = property_map[i].1.clone();
            let ok = self.apply_setting(key, value);
            if ok {
                match key {
                    SettingValue::Str(k) => { modified.push(k.clone()); },
                    _ => {},
                }
            } else {
                all_successful = false;
            }
            proof {
                let prev_oks = oks;
                trace = trace.push(*self);
                oks = oks.push(ok);
                assert(entries.take(i + 1).drop_last() == entries.take(i as int));
                assert(oks.drop_last() == prev_oks);
                assert(forall|j: int| 0 <= j < i ==> oks[j] == prev_oks[j]);
                assert(oks[i as int] == ok);
                if !ok {
                    assert(!oks[i as int]);
                }
                assert((forall|j: int| 0 <= j < i + 1 ==> oks[j]) == ((forall|j: int| 0 <= j < i ==> prev_oks[j]) && ok)) by {
                    if (forall|j: int| 0 <= j < i ==> prev_oks[j]) && ok {
                        assert forall|j: int| 0 <= j < i + 1 implies oks[j] by {
                            if j < i {
                                assert(prev_oks[j]);
                            }
                        }
                    }
                }
                if ok {
                    assert(key is Str);
                }
            }
            i = i + 1;
        }
        proof {
            assert(entries.take(entries.len() as int) == entries);
            assert(settings_trace(*old(self), *self, entries, trace, oks));
        }
        let save_due = save_needed(save_after, &modified);
        BulkApply { all_applied: all_successful, applied: modified, save_due }
    }

    /// Whether the editor properties allow a game in `mode`; see
    /// `valid_for_mode`.
    pub fn validate_for_mode(&self, mode: i32) -> (ok: bool)
        ensures
            ok == valid_for_mode(*self, mode),
            self.world_seed == 0 ==> !ok,
            (mode == 0 || (mode < 0 && self.network_mode == 0)) ==> ok == (self.world_seed != 0),
            (mode == 1 || (mode < 0 && self.network_mode == 1)) ==> ok == (self.world_seed != 0
                && 0 < self.server_port && self.server_port <= 65535 && self.max_players > 0),
            (mode == 2 || (mode < 0 && self.network_mode == 2)) ==> ok == (self.world_seed != 0
                && self.server_address@.len() > 0),
            (mode > 2 || (mode < 0 && (self.network_mode < 0 || self.network_mode > 2))) ==> !ok,
    {
        let check_mode = if mode < 0 { self.network_mode } else { mode };
        if self.world_seed == 0 {
            return false;
        }
        if check_mode == 0 {
            true
        } else if check_mode == 1 {
            if self.server_port <= 0 || self.server_port > 65535 {
                return false;
            }
            if self.max_players <= 0 {
                return false;
            }
            true
        } else if check_mode == 2 {
            !self.server_address.as_str().is_empty()
        } else {
            false
        }
    }

    /// Whether there is a configuration and it is valid.
    pub fn validate_config(&self) -> (ok: bool)
        ensures
            ok == (self.config_manager matches Some(m) && crate::core_config::core_config_errors(m.current_config) is None),
    {
        match &self.config_manager {
            Some(m) => m.validate().is_ok(),
            None => false,
        }
    }

    /// Reads the editor properties from the configuration, if there is one.
    pub fn update_editor_properties_from_config(&mut self)
        requires
            old(self).wf(),
        ensures
            final(self).wf(),
            final(self).config_manager == old(self).config_manager,
            match old(self).config_manager {
                Some(m) => properties_from(*old(self), *final(self), m.current_config),
                None => *final(self) == *old(self),
            },
    {
        match &self.config_manager {
            None => {},
            Some(m) => {
                let config = &m.current_config;
                let world_seed = config.world_seed as i64;
                let world_width = config.world_size.width as i32;
                let world_height = config.world_size.height as i32;
                let max_players = config.network.max_players as i32;
                let server_port = config.network.server_port as i32;
                let (mode, address) = match &config.game_mode {
                    GameModeConfig::Standalone => (0i32, None),
                    GameModeConfig::Host(_) => (1i32, None),
                    GameModeConfig::Client(client_config) => (2i32, Some(client_config.server_address.clone())),
                };
                self.world_seed = world_seed;
                self.world_width = world_width;
                self.world_height = world_height;
                self.max_players = max_players;
                self.server_port = server_port;
                self.network_mode = mode;
                match address {
                    Some(a) => { self.server_address = a; },
                    None => {},
                }
            },
        }
    }

    /// Takes a configuration and reads the editor properties from it.
    pub fn set_config_manager(&mut self, config_manager: ConfigurationManager<R>)
        requires
            config_manager.wf(),
        ensures
            final(self).wf(),
            final(self).config_manager == Some(config_manager),
            properties_from(*old(self), *final(self), config_manager.current_config),
    {
        self.config_manager = Some(config_manager);
        self.update_editor_properties_from_config();
    }

    /// Sets the network mode and writes it into the configuration; returns
    /// whether that succeeded. Saving, when asked for, is the caller's.
    pub fn set_game_mode(&mut self, mode: i32) -> (ok: bool)
        requires
            old(self).wf(),
        ensures
            final(self).wf(),
            synced(ConfigBridge { network_mode: mode, ..*old(self) }, *final(self), ConfigProperty::NetworkMode, ok),
    {
        self.network_mode = mode;
        self.sync_property(ConfigProperty::NetworkMode)
    }

    /// Writes the world seed property into the configuration.
    pub fn apply_world_seed(&mut self) -> (ok: bool)
        requires
            old(self).wf(),
        ensures
            final(self).wf(),
            synced(*old(self), *final(self), ConfigProperty::WorldSeed, ok),
    {
        self.sync_property(ConfigProperty::WorldSeed)
    }

    /// Writes the server address property into the configuration.
    pub fn apply_server_address(&mut self) -> (ok: bool)
        requires
            old(self).wf(),
        ensures
            final(self).wf(),
            synced(*old(self), *final(self), ConfigProperty::ServerAddress, ok),
    {
        self.sync_property(ConfigProperty::ServerAddress)
    }

    /// Writes property `name` from the editor into the configuration.
    /// Fails without a configuration, for an unknown name, a network mode
    /// other than 0, 1, 2, or a server address outside client mode.
    pub fn sync_property_to_config(&mut self, name: &str) -> (ok: bool)
        requires
            old(self).wf(),
        ensures
            final(self).wf(),
            match property_of(name@) {
                Some(p) => synced(*old(self), *final(self), p, ok),
                None => !ok && *final(self) == *old(self),
            },
    {
        match parse_property(name) {
            Some(p) => self.sync_property(p),
            None => false,
        }
    }

    /// Writes property `p` from the editor into the configuration.
    pub fn sync_property(&mut self, p: ConfigProperty) -> (ok: bool)
        requires
            old(self).wf(),
        ensures
            final(self).wf(),
            synced(*old(self), *final(self), p, ok),
    {
        let world_seed = self.world_seed;
        let world_width = self.world_width;
        let world_height = self.world_height;
        let max_players = self.max_players;
        let server_port = self.server_port;
        let network_mode = self.network_mode;
        let server_address = self.server_address.clone();
        match &mut self.config_manager {
            None => false,
            Some(m) => {
                let config = &mut m.current_config;
                match p {
                    ConfigProperty::WorldSeed => {
                        config.world_seed = world_seed as u64;
                        true
                    },
                    ConfigProperty::WorldWidth => {
                        config.world_size.width = world_width as u32;
                        true
                    },
                    ConfigProperty::WorldHeight => {
                        config.world_size.height = world_height as u32;
                        true
                    },
                    ConfigProperty::MaxPlayers => {
                        config.network.max_players = max_players as u8;
                        true
                    },
                    ConfigProperty::ServerPort => {
                        config.network.server_port = server_port as u16;
                        true
                    },
                    ConfigProperty::NetworkMode => {
                        if network_mode == 0 {
                            config.game_mode = GameModeConfig::Standalone;
                            true
                        } else if network_mode == 1 {
                            let is_host = match &config.game_mode {
                                GameModeConfig::Host(_) => true,
                                _ => false,
                            };
                            if !is_host {
                                config.game_mode = GameModeConfig::Host(HostConfig {
                                    world_generation_seed: config.world_seed,
                                    admin_password: None,
                                });
                            }
                            true
                        } else if network_mode == 2 {
                            let is_client = match &config.game_mode {
                                GameModeConfig::Client(_) => true,
                                _ => false,
                            };
                            if !is_client {
                                config.game_mode = GameModeConfig::Client(ClientConfig {
                                    server_address,
                                    username: String::from_str("Player"),
                                });
                            }
                            true
                        } else {
                            false
                        }
                    },
                    ConfigProperty::ServerAddress => {
                        match &mut config.game_mode {
                            GameModeConfig::Client(client_config) => {
                                client_config.server_address = server_address;
                                true
                            },
                            _ => false,
                        }
                    },
                }
            },
        }
    }
}

/// What applying several settings at once came to.
pub struct BulkApply {
    /// Every entry was applied.
    pub all_applied: bool,
    /// The names of the entries applied, in order.
    pub applied: Vec<String>,
    /// The configuration is to be saved now.
    pub save_due: bool,
}

/// A save is due after a bulk apply exactly when one was asked for and some
/// entry was applied.
pub fn save_needed(save_after: bool, applied: &Vec<String>) -> (b: bool)
    ensures
        b == (save_after && applied@.len() > 0),
{
    save_after && applied.len() > 0
}

/// The answer of a bulk apply: every entry was applied and, when a save was
/// due, the save succeeded.
pub fn finish_bulk_apply(all_applied: bool, save_due: bool, save_ok: bool) -> (r: bool)
    ensures
        r == (all_applied && (save_due ==> save_ok)),
{
    if save_due && !save_ok {
        false
    } else {
        all_applied
    }
}

} // verus!
