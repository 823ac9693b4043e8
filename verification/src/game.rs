//! The game's life cycle: its states and the transitions between them,
//! the events each transition publishes, how a network event is answered,
//! and the numbering the editor bridge shows.
use vstd::prelude::*;
use vstd::string::*;
use crate::event_bus::PlayerConnectedEvent;
use crate::network::{connection_error_message, error_name, serialize_message, encode_message, NetworkEvent};
use crate::world_state::{WorldStateManager, is_world_state_of};

verus! {

broadcast use vstd::string::group_string_axioms;

/// Where the game stands.
#[derive(Clone, Copy, Debug, PartialEq, Eq, Structural)]
pub enum GameState {
    Initializing,
    MainMenu,
    Loading,
    Running,
    Paused,
    Exiting,
}

/// What went wrong, with a message.
pub enum GameError {
    ConfigError(String),
    NetworkError(String),
    WorldError(String),
    SystemError(String),
}

impl GameError {
    /// A message becomes a world error.
    pub fn from_message(s: String) -> (e: Self)
        ensures
            e == GameError::WorldError(s),
    {
        GameError::WorldError(s)
    }
}

/// What the game publishes.
#[derive(Debug)]
pub enum GameEvent {
    StateChanged(GameState),
    WorldLoaded,
    ErrorOccurred(String),
}

/// How the game answers a network event: the player-connected event to
/// publish, and the bytes to send to a peer.
pub struct NetworkReaction {
    pub player_connected: Option<PlayerConnectedEvent>,
    pub send_to_peer: Option<(String, Vec<u8>)>,
}

/// The game manager; `R` is the world's generation parameters.
pub struct GameManager<R> {
    state: GameState,
    running: bool,
    world_manager: Option<WorldStateManager<R>>,
    has_network_handler: bool,
    frame_rate: u32,
    initialized: bool,
    events: Vec<GameEvent>,
}

impl<R> GameManager<R> {
    pub closed spec fn wf(&self) -> bool {
        self.world_manager matches Some(w) ==> w.wf()
    }

    pub closed spec fn state_spec(&self) -> GameState {
        self.state
    }

    pub closed spec fn running_spec(&self) -> bool {
        self.running
    }

    pub closed spec fn initialized_spec(&self) -> bool {
        self.initialized
    }

    pub closed spec fn frame_rate_spec(&self) -> u32 {
        self.frame_rate
    }

    pub closed spec fn world(&self) -> Option<WorldStateManager<R>> {
        self.world_manager
    }

    pub closed spec fn has_network_spec(&self) -> bool {
        self.has_network_handler
    }

    /// The events published and not yet taken, oldest first.
    pub closed spec fn events(&self) -> Seq<GameEvent> {
        self.events@
    }

    /// A manager that is initializing, not running, at 60 frames per second,
    /// with no world and no network.
    pub fn new() -> (g: Self)
        ensures
            g.wf(),
            g.state_spec() == GameState::Initializing,
            !g.running_spec(),
            !g.initialized_spec(),
            g.frame_rate_spec() == 60,
            g.world() is None,
            !g.has_network_spec(),
            g.events().len() == 0,
    {
        GameManager {
            state: GameState::Initializing,
            running: false,
            world_manager: None,
            has_network_handler: false,
            frame_rate: 60,
            initialized: false,
            events: Vec::new(),
        }
    }

    /// A manager with the given world and network.
    pub fn new_with_dependencies(world_manager: Option<WorldStateManager<R>>, has_network_handler: bool) -> (g: Self)
        requires
            world_manager matches Some(w) ==> w.wf(),
        ensures
            g.wf(),
            g.state_spec() == GameState::Initializing,
            !g.running_spec(),
            !g.initialized_spec(),
            g.frame_rate_spec() == 60,
            g.world() == world_manager,
            g.has_network_spec() == has_network_handler,
            g.events().len() == 0,
    {
        GameManager {
            state: GameState::Initializing,
            running: false,
            world_manager,
            has_network_handler,
            frame_rate: 60,
            initialized: false,
            events: Vec::new(),
        }
    }

    pub fn set_world_manager(&mut self, world_manager: WorldStateManager<R>)
        requires
            world_manager.wf(),
        ensures
            final(self).wf(),
            final(self).world() == Some(world_manager),
            final(self).state_spec() == old(self).state_spec(),
            final(self).running_spec() == old(self).running_spec(),
            final(self).initialized_spec() == old(self).initialized_spec(),
            final(self).events() == old(self).events(),
            final(self).has_network_spec() == old(self).has_network_spec(),
            final(self).frame_rate_spec() == old(self).frame_rate_spec(),
    {
        self.world_manager = Some(world_manager);
    }

    pub fn set_network_handler(&mut self)
        ensures
            final(self).has_network_spec(),
            final(self).wf() == old(self).wf(),
            final(self).world() == old(self).world(),
            final(self).state_spec() == old(self).state_spec(),
            final(self).running_spec() == old(self).running_spec(),
            final(self).initialized_spec() == old(self).initialized_spec(),
            final(self).events() == old(self).events(),
            final(self).frame_rate_spec() == old(self).frame_rate_spec(),
    {
        self.has_network_handler = true;
    }

    /// Moves to `new_state` and publishes that change.
    pub fn transition_state(&mut self, new_state: GameState)
        ensures
            final(self).state_spec() == new_state,
            final(self).events() == old(self).events().push(GameEvent::StateChanged(new_state)),
            final(self).wf() == old(self).wf(),
            final(self).world() == old(self).world(),
            final(self).running_spec() == old(self).running_spec(),
            final(self).initialized_spec() == old(self).initialized_spec(),
            final(self).has_network_spec() == old(self).has_network_spec(),
            final(self).frame_rate_spec() == old(self).frame_rate_spec(),
    {
        self.state = new_state;
        self.events.push(GameEvent::StateChanged(new_state));
    }

    /// Marks the manager initialized and moves to the main menu.
    pub fn mark_initialized(&mut self)
        ensures
            final(self).initialized_spec(),
            final(self).state_spec() == GameState::MainMenu,
            final(self).events() == old(self).events().push(GameEvent::StateChanged(GameState::MainMenu)),
            final(self).wf() == old(self).wf(),
            final(self).world() == old(self).world(),
            final(self).running_spec() == old(self).running_spec(),
            final(self).has_network_spec() == old(self).has_network_spec(),
            final(self).frame_rate_spec() == old(self).frame_rate_spec(),
    {
        self.initialized = true;
        self.transition_state(GameState::MainMenu);
    }

    /// Initializes the world; fails when there is no world manager.
    pub fn ensure_world_initialized(&mut self) -> (r: Result<(), GameError>)
        requires
            old(self).wf(),
        ensures
            final(self).wf(),
            r is Ok <==> old(self).world() is Some,
            r matches Err(e) ==> (e matches GameError::WorldError(m) && m@ == "World manager not created"@),
            final(self).state_spec() == old(self).state_spec(),
            final(self).running_spec() == old(self).running_spec(),
            final(self).initialized_spec() == old(self).initialized_spec(),
            final(self).events() == old(self).events(),
            final(self).has_network_spec() == old(self).has_network_spec(),
            final(self).frame_rate_spec() == old(self).frame_rate_spec(),
            final(self).world() is Some == old(self).world() is Some,
            final(self).world() matches Some(w) ==> w.initialized_spec()
                && w.version() == old(self).world()->0.version()
                && w.entities() == old(self).world()->0.entities()
                && w.config_spec() == old(self).world()->0.config_spec()
                && w.pending() == (true, old(self).world()->0.config_spec().seed, old(self).world()->0.config_spec().world_size),
    {
        match &mut self.world_manager {
            None => Err(GameError::WorldError(String::from_str("World manager not created"))),
            Some(w) => {
                let _ = w.initialize();
                Ok(())
            },
        }
    }

    /// Starts the game: it must be initialized and have a world, which is
    /// then initialized; the game runs.
    pub fn start_game(&mut self) -> (r: Result<(), GameError>)
        requires
            old(self).wf(),
        ensures
            final(self).wf(),
            r is Ok <==> old(self).initialized_spec() && old(self).world() is Some,
            !old(self).initialized_spec() ==> (r matches Err(GameError::SystemError(m)) && m@ == "Game not initialized"@)
                && final(self).state_spec() == old(self).state_spec() && final(self).events() == old(self).events(),
            old(self).initialized_spec() && old(self).world() is None ==> (r matches Err(GameError::WorldError(m)) && m@ == "World manager not created"@)
                && final(self).state_spec() == old(self).state_spec() && final(self).events() == old(self).events(),
            r is Ok ==> final(self).running_spec() && final(self).state_spec() == GameState::Running
                && final(self).events() == old(self).events().push(GameEvent::StateChanged(GameState::Running)),
            r is Ok ==> (final(self).world() matches Some(w) && w.initialized_spec()
                && w.pending() == (true, old(self).world()->0.config_spec().seed, old(self).world()->0.config_spec().world_size)
                && w.version() == old(self).world()->0.version()
                && w.entities() == old(self).world()->0.entities()
                && w.config_spec() == old(self).world()->0.config_spec()),
            r is Err ==> final(self).running_spec() == old(self).running_spec() && final(self).world() == old(self).world(),
            final(self).initialized_spec() == old(self).initialized_spec(),
            final(self).has_network_spec() == old(self).has_network_spec(),
            final(self).frame_rate_spec() == old(self).frame_rate_spec(),
            final(self).world() is Some == old(self).world() is Some,
    {
        if !self.initialized {
            return Err(GameError::SystemError(String::from_str("Game not initialized")));
        }
        match self.ensure_world_initialized() {
            Err(e) => {
                return Err(e);
            },
            Ok(()) => {},
        }
        self.running = true;
        self.transition_state(GameState::Running);
        Ok(())
    }

    pub fn get_state(&self) -> (s: GameState)
        ensures
            s == self.state_spec(),
    {
        self.state
    }

    /// Pauses a running game; in any other state nothing happens.
    pub fn pause(&mut self)
        ensures
            final(self).state_spec() == paused_state(old(self).state_spec()),
            final(self).events() == old(self).events() + state_events(old(self).state_spec(), paused_state(old(self).state_spec())),
            final(self).wf() == old(self).wf(),
            final(self).world() == old(self).world(),
            final(self).running_spec() == old(self).running_spec(),
            final(self).initialized_spec() == old(self).initialized_spec(),
            final(self).has_network_spec() == old(self).has_network_spec(),
            final(self).frame_rate_spec() == old(self).frame_rate_spec(),
    {
        if self.state == GameState::Running {
            self.transition_state(GameState::Paused);
        }
    }

    /// Resumes a paused game; in any other state nothing happens.
    pub fn resume(&mut self)
        ensures
            final(self).state_spec() == resumed_state(old(self).state_spec()),
            final(self).events() == old(self).events() + state_events(old(self).state_spec(), resumed_state(old(self).state_spec())),
            final(self).wf() == old(self).wf(),
            final(self).world() == old(self).world(),
            final(self).running_spec() == old(self).running_spec(),
            final(self).initialized_spec() == old(self).initialized_spec(),
            final(self).has_network_spec() == old(self).has_network_spec(),
            final(self).frame_rate_spec() == old(self).frame_rate_spec(),
    {
        if self.state == GameState::Paused {
            self.transition_state(GameState::Running);
        }
    }

    /// Stops the game: it no longer runs and is exiting.
    pub fn stop(&mut self)
        ensures
            !final(self).running_spec(),
            final(self).state_spec() == GameState::Exiting,
            final(self).events() == old(self).events().push(GameEvent::StateChanged(GameState::Exiting)),
            final(self).wf() == old(self).wf(),
            final(self).world() == old(self).world(),
            final(self).initialized_spec() == old(self).initialized_spec(),
            final(self).has_network_spec() == old(self).has_network_spec(),
            final(self).frame_rate_spec() == old(self).frame_rate_spec(),
    {
        self.running = false;
        self.transition_state(GameState::Exiting);
    }

    /// Shuts the game down: not running, exiting, no longer initialized.
    /// Saving the configuration first is the caller's.
    pub fn shutdown(&mut self)
        ensures
            !final(self).running_spec(),
            final(self).state_spec() == GameState::Exiting,
            !final(self).initialized_spec(),
            final(self).events() == old(self).events().push(GameEvent::StateChanged(GameState::Exiting)),
            final(self).wf() == old(self).wf(),
            final(self).world() == old(self).world(),
            final(self).has_network_spec() == old(self).has_network_spec(),
            final(self).frame_rate_spec() == old(self).frame_rate_spec(),
    {
        self.running = false;
        self.transition_state(GameState::Exiting);
        self.initialized = false;
    }

    pub fn is_initialized(&self) -> (b: bool)
        ensures
            b == self.initialized_spec(),
    {
        self.initialized
    }

    pub fn is_running(&self) -> (b: bool)
        ensures
            b == self.running_spec(),
    {
        self.running
    }

    pub fn set_frame_rate(&mut self, fps: u32)
        ensures
            final(self).frame_rate_spec() == fps,
            final(self).wf() == old(self).wf(),
            final(self).world() == old(self).world(),
            final(self).state_spec() == old(self).state_spec(),
            final(self).running_spec() == old(self).running_spec(),
            final(self).initialized_spec() == old(self).initialized_spec(),
            final(self).events() == old(self).events(),
            final(self).has_network_spec() == old(self).has_network_spec(),
    {
        self.frame_rate = fps;
    }

    pub fn get_frame_rate(&self) -> (fps: u32)
        ensures
            fps == self.frame_rate_spec(),
    {
        self.frame_rate
    }

    /// Hands over the published events, oldest first, and forgets them.
    pub fn take_events(&mut self) -> (es: Vec<GameEvent>)
        ensures
            es@ == old(self).events(),
            final(self).events().len() == 0,
            final(self).wf() == old(self).wf(),
            final(self).world() == old(self).world(),
            final(self).state_spec() == old(self).state_spec(),
            final(self).running_spec() == old(self).running_spec(),
            final(self).initialized_spec() == old(self).initialized_spec(),
            final(self).has_network_spec() == old(self).has_network_spec(),
            final(self).frame_rate_spec() == old(self).frame_rate_spec(),
    {
        let mut es: Vec<GameEvent> = Vec::new();
        std::mem::swap(&mut es, &mut self.events);
        es
    }

    /// Answers a network event: a connecting peer is announced and, when
    /// there is a world and a network, sent the world state as a
    /// "world_state" message; a connection error fails the update.
    pub fn handle_network_event(&self, event: NetworkEvent) -> (r: Result<NetworkReaction, GameError>)
        requires
            self.wf(),
        ensures
            match event {
                NetworkEvent::Connected(peer) => r matches Ok(reaction) && {
                    &&& reaction.player_connected matches Some(pc) && pc.player_id == peer
                    &&& (self.world() is Some && self.has_network_spec()) == reaction.send_to_peer is Some
                    &&& reaction.send_to_peer matches Some(send) ==> send.0 == peer && exists|state: Seq<u8>|
                        is_world_state_of(self.world()->0.version(), self.world()->0.entities(), state)
                        && #[trigger] encode_message("world_state".spec_bytes(), state) == send.1@
                },
                NetworkEvent::ConnectionError(e) => r matches Err(GameError::NetworkError(m)) && m@ == "Connection error: "@ + error_name(e),
                _ => r matches Ok(reaction) && reaction.player_connected is None && reaction.send_to_peer is None,
            },
    {
        match event {
            NetworkEvent::Connected(peer_id) => {
                let send = match &self.world_manager {
                    Some(w) => {
                        if self.has_network_handler {
                            let state = w.serialize_world_state();
                            let bytes = serialize_message("world_state", &state);
                            Some((peer_id.clone(), bytes))
                        } else {
                            None
                        }
                    },
                    None => None,
                };
                Ok(NetworkReaction { player_connected: Some(PlayerConnectedEvent { player_id: peer_id }), send_to_peer: send })
            },
            NetworkEvent::ConnectionError(e) => Err(GameError::NetworkError(connection_error_message(e))),
            _ => Ok(NetworkReaction { player_connected: None, send_to_peer: None }),
        }
    }
}

/// The state after pausing: a running game pauses, any other stays.
pub open spec fn paused_state(s: GameState) -> GameState {
    if s == GameState::Running {
        GameState::Paused
    } else {
        s
    }
}

/// The state after resuming: a paused game runs, any other stays.
pub open spec fn resumed_state(s: GameState) -> GameState {
    if s == GameState::Paused {
        GameState::Running
    } else {
        s
    }
}

/// The events a move from `s` to `t` announces: one state change, or none
/// when the state stays.
pub open spec fn state_events(s: GameState, t: GameState) -> Seq<GameEvent> {
    if s == t {
        Seq::empty()
    } else {
        seq![GameEvent::StateChanged(t)]
    }
}

/// Pausing a running game and resuming it runs it again, announcing the
/// pause and then the resumption; resuming a paused game and pausing it
/// pauses it again. Either way round, a state that neither touches stays.
pub proof fn lemma_pause_resume_round_trip(s: GameState)
    ensures
        s == GameState::Running ==> resumed_state(paused_state(s)) == s
            && state_events(s, paused_state(s)) + state_events(paused_state(s), resumed_state(paused_state(s)))
                == seq![GameEvent::StateChanged(GameState::Paused), GameEvent::StateChanged(GameState::Running)],
        s == GameState::Paused ==> paused_state(resumed_state(s)) == s,
        s != GameState::Running && s != GameState::Paused ==> paused_state(s) == s && resumed_state(s) == s,
{
    if s == GameState::Running {
        assert(state_events(s, paused_state(s)) + state_events(paused_state(s), resumed_state(paused_state(s)))
            =~= seq![GameEvent::StateChanged(GameState::Paused), GameEvent::StateChanged(GameState::Running)]);
    }
}

/// The number the editor shows for a state.
pub open spec fn state_number(s: GameState) -> i32 {
    match s {
        GameState::Initializing => 0,
        GameState::MainMenu => 1,
        GameState::Loading => 2,
        GameState::Running => 3,
        GameState::Paused => 4,
        GameState::Exiting => 5,
    }
}

/// The name of a state number.
pub open spec fn state_name_of(n: i32) -> Seq<char> {
    if n == 0 {
        "Initializing"@
    } else if n == 1 {
        "MainMenu"@
    } else if n == 2 {
        "Loading"@
    } else if n == 3 {
        "Running"@
    } else if n == 4 {
        "Paused"@
    } else if n == 5 {
        "Exiting"@
    } else {
        "Not Initialized"@
    }
}

/// The editor's view of the game state: -1 until a state is known.
pub struct GameManagerBridge {
    pub current_state: i32,
    pub debug_mode: bool,
    pub auto_update: bool,
}

impl GameManagerBridge {
    /// No state known yet, updating every frame.
    pub fn new() -> (b: Self)
        ensures
            b.current_state == -1 && !b.debug_mode && b.auto_update,
    {
        GameManagerBridge { current_state: -1, debug_mode: false, auto_update: true }
    }

    pub fn get_game_state(&self) -> (n: i32)
        ensures
            n == self.current_state,
    {
        self.current_state
    }

    /// The name of the current state.
    pub fn get_game_state_name(&self) -> (s: String)
        ensures
            s@ == state_name_of(self.current_state),
    {
        state_name(self.current_state)
    }

    /// Shows `state`; returns (old number, new number, name) when it
    /// changed, which is when the state-changed signal is raised.
    pub fn update_state_from_enum(&mut self, state: GameState) -> (changed: Option<(i32, i32, String)>)
        ensures
            final(self).current_state == state_number(state),
            final(self).debug_mode == old(self).debug_mode,
            final(self).auto_update == old(self).auto_update,
            old(self).current_state == state_number(state) ==> changed is None,
            old(self).current_state != state_number(state) ==> (changed matches Some(c)
                && c.0 == old(self).current_state && c.1 == state_number(state) && c.2@ == state_name_of(state_number(state))),
    {
        let old_state = self.current_state;
        let new_state = state_code(state);
        self.current_state = new_state;
        if old_state != new_state {
            Some((old_state, new_state, state_name(new_state)))
        } else {
            None
        }
    }
}

/// What the editor learns from an operation on the game: the state change
/// to signal, if the shown state changed.
pub type StateChange = Option<(i32, i32, String)>;

/// `c` reports the move of the shown state from `old_state` to `s`.
pub open spec fn reports_change(c: StateChange, old_state: i32, s: GameState) -> bool {
    if old_state == state_number(s) {
        c is None
    } else {
        c matches Some(t) && t.0 == old_state && t.1 == state_number(s) && t.2@ == state_name_of(state_number(s))
    }
}

impl GameManagerBridge {
    /// Starts the game and shows its new state; the game's error otherwise,
    /// with the shown state kept.
    pub fn start_game<R>(&mut self, game: &mut GameManager<R>) -> (r: Result<StateChange, GameError>)
        requires
            old(game).wf(),
        ensures
            final(game).wf(),
            r is Ok <==> old(game).initialized_spec() && old(game).world() is Some,
            r matches Ok(c) ==> final(self).current_state == state_number(GameState::Running)
                && reports_change(c, old(self).current_state, GameState::Running),
            r is Err ==> final(self).current_state == old(self).current_state,
            !old(game).initialized_spec() ==> (r matches Err(GameError::SystemError(m)) && m@ == "Game not initialized"@),
            old(game).initialized_spec() && old(game).world() is None ==> (r matches Err(GameError::WorldError(m)) && m@ == "World manager not created"@),
            final(game).state_spec() == (if r is Ok { GameState::Running } else { old(game).state_spec() }),
            r is Ok ==> final(game).running_spec()
                && final(game).events() == old(game).events().push(GameEvent::StateChanged(GameState::Running)),
            r is Err ==> final(game).running_spec() == old(game).running_spec() && final(game).events() == old(game).events(),
            final(game).initialized_spec() == old(game).initialized_spec(),
            final(game).has_network_spec() == old(game).has_network_spec(),
            final(game).frame_rate_spec() == old(game).frame_rate_spec(),
            final(self).debug_mode == old(self).debug_mode,
            final(self).auto_update == old(self).auto_update,
    {
        match game.start_game() {
            Ok(()) => {
                let state = game.get_state();
                Ok(self.update_state_from_enum(state))
            },
            Err(e) => Err(e),
        }
    }

    /// Pauses the game and shows its state.
    pub fn pause_game<R>(&mut self, game: &mut GameManager<R>) -> (c: StateChange)
        ensures
            final(game).state_spec() == paused_state(old(game).state_spec()),
            final(game).events() == old(game).events() + state_events(old(game).state_spec(), paused_state(old(game).state_spec())),
            final(game).running_spec() == old(game).running_spec(),
            final(game).wf() == old(game).wf(),
            final(game).world() == old(game).world(),
            final(game).initialized_spec() == old(game).initialized_spec(),
            final(game).has_network_spec() == old(game).has_network_spec(),
            final(game).frame_rate_spec() == old(game).frame_rate_spec(),
            final(self).current_state == state_number(final(game).state_spec()),
            reports_change(c, old(self).current_state, final(game).state_spec()),
            final(self).debug_mode == old(self).debug_mode,
            final(self).auto_update == old(self).auto_update,
    {
        game.pause();
        let state = game.get_state();
        self.update_state_from_enum(state)
    }

    /// Resumes the game and shows its state.
    pub fn resume_game<R>(&mut self, game: &mut GameManager<R>) -> (c: StateChange)
        ensures
            final(game).state_spec() == resumed_state(old(game).state_spec()),
            final(game).events() == old(game).events() + state_events(old(game).state_spec(), resumed_state(old(game).state_spec())),
            final(game).running_spec() == old(game).running_spec(),
            final(game).wf() == old(game).wf(),
            final(game).world() == old(game).world(),
            final(game).initialized_spec() == old(game).initialized_spec(),
            final(game).has_network_spec() == old(game).has_network_spec(),
            final(game).frame_rate_spec() == old(game).frame_rate_spec(),
            final(self).current_state == state_number(final(game).state_spec()),
            reports_change(c, old(self).current_state, final(game).state_spec()),
            final(self).debug_mode == old(self).debug_mode,
            final(self).auto_update == old(self).auto_update,
    {
        game.resume();
        let state = game.get_state();
        self.update_state_from_enum(state)
    }

    /// Stops the game and shows its state, which is then Exiting.
    pub fn stop_game<R>(&mut self, game: &mut GameManager<R>) -> (c: StateChange)
        ensures
            final(game).state_spec() == GameState::Exiting,
            !final(game).running_spec(),
            final(game).events() == old(game).events().push(GameEvent::StateChanged(GameState::Exiting)),
            final(game).wf() == old(game).wf(),
            final(game).world() == old(game).world(),
            final(game).initialized_spec() == old(game).initialized_spec(),
            final(game).has_network_spec() == old(game).has_network_spec(),
            final(game).frame_rate_spec() == old(game).frame_rate_spec(),
            final(self).current_state == state_number(GameState::Exiting),
            reports_change(c, old(self).current_state, GameState::Exiting),
            final(self).debug_mode == old(self).debug_mode,
            final(self).auto_update == old(self).auto_update,
    {
        game.stop();
        let state = game.get_state();
        self.update_state_from_enum(state)
    }

    /// Sets the game's frame rate; a negative rate wraps as its bit pattern.
    pub fn set_frame_rate<R>(&self, game: &mut GameManager<R>, fps: i32)
        ensures
            final(game).frame_rate_spec() == fps as u32,
            final(game).state_spec() == old(game).state_spec(),
            final(game).events() == old(game).events(),
            final(game).running_spec() == old(game).running_spec(),
            final(game).wf() == old(game).wf(),
            final(game).world() == old(game).world(),
            final(game).initialized_spec() == old(game).initialized_spec(),
            final(game).has_network_spec() == old(game).has_network_spec(),
    {
        game.set_frame_rate(fps as u32);
    }

    /// Whether there is a game and it is initialized.
    pub fn is_initialized<R>(&self, game: Option<&GameManager<R>>) -> (b: bool)
        ensures
            b == (game matches Some(g) && g.initialized_spec()),
    {
        match game {
            Some(g) => g.is_initialized(),
            None => false,
        }
    }
}

/// The number the editor shows for a state.
pub fn state_code(s: GameState) -> (n: i32)
    ensures
        n == state_number(s),
{
    match s {
        GameState::Initializing => 0,
        GameState::MainMenu => 1,
        GameState::Loading => 2,
        GameState::Running => 3,
        GameState::Paused => 4,
        GameState::Exiting => 5,
    }
}

/// The name of a state number; other numbers are "Not Initialized".
pub fn state_name(n: i32) -> (s: String)
    ensures
        s@ == state_name_of(n),
{
    if n == 0 {
        String::from_str("Initializing")
    } else if n == 1 {
        String::from_str("MainMenu")
    } else if n == 2 {
        String::from_str("Loading")
    } else if n == 3 {
        String::from_str("Running")
    } else if n == 4 {
        String::from_str("Paused")
    } else if n == 5 {
        String::from_str("Exiting")
    } else {
        String::from_str("Not Initialized")
    }
}

} // verus!
