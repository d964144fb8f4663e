pub mod blocks;
pub mod descriptor;
pub mod menus;
pub mod registry;
pub mod session;
pub mod stateful;
