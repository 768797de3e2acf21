//! A terminal front-end for Wi-Fi connections, without the terminal: the
//! state of an interactive session and its transitions, the reading and
//! normalising of scan results, the choice of the adapter, and the
//! description of what is on the screen. Running commands, reading keys and
//! drawing are left to the program around it.

pub mod cli;
pub mod interface;
pub mod layout;
pub mod network;
pub mod render;
pub mod session;
pub mod text;
