pub mod clock;
pub mod game_world;
pub mod screen;
pub mod store;

pub use screen::{Action, GameFocus, Screen};
pub use store::{GameRenderState, State, StoreEffect};
pub mod input;
pub mod panels;
