//! Verified game rules of a grid-based factory and city builder: item and
//! building catalogues, world coordinates, what a build click does, the power
//! grid (union-find, wiring and connected components), machine recipes and the
//! per-tick production step, the economy and the rival cartel, chroma keying of
//! sprite sheets, the multiplayer protocol's packet types, and the player's
//! input rules.

pub mod text;
pub mod item;
pub mod tool;
pub mod terrain;
pub mod grid_key;
pub mod power;
pub mod world;
pub mod placement;
pub mod industry;
pub mod economy;
pub mod imaging;
pub mod components;
pub mod machine;
pub mod protocol;
pub mod controls;
pub mod grid_graph;
