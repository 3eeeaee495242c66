pub mod ids;
pub mod rooms;
pub mod world;
pub mod player;
