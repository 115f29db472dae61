//! Game logic of a small tile-based multiplayer game: shared protocol
//! types, run-length encoding of room layers, map conversion, combat and
//! mob behaviour, verified with Verus.
pub mod animation;
pub mod app_event;
pub mod assets;
pub mod client_config;
pub mod combat;
pub mod game_state;
pub mod ldtk_map;
pub mod metrics;
pub mod mob_logic;
pub mod movement;
pub mod object;
pub mod player_command;
pub mod rle;
pub mod room;
pub mod room_actor;
pub mod room_logic;
pub mod room_state;
pub mod room_writer;
pub mod server_actor;
pub mod server_context;
pub mod text;
pub mod tick;
pub mod update;
