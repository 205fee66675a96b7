//! Launcher logic for the Chinese-locale ChatGPT desktop preview: which debug
//! targets to attach to, how the local debug endpoint's HTTP replies are framed,
//! which WebSocket addresses are acceptable, what the DevTools session sends and
//! how it reads the replies, and the decisions of the page monitor.
pub mod text;
pub mod websocket;
pub mod target;
pub mod http;
pub mod json;
pub mod script;
pub mod cdp;
pub mod monitor;
pub mod desktop;
pub mod report;
