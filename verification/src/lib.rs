//! Core logic of a LAN keyboard/mouse/audio/file sharing system: the wire
//! format of the control channel, the file-transfer protocol, the server's
//! active-client registry, screen layout arithmetic, the audio playout
//! buffer and the decisions made by the input hooks and injectors.
pub mod protocol;
pub mod input;
pub mod audio;
pub mod audio_devices;
pub mod framing;
pub mod active_client;
pub mod playout;
pub mod text;
pub mod file_transfer;
pub mod transfer;
pub mod layout;
pub mod tls;
pub mod inject_linux;
pub mod inject_windows;
pub mod capture;
pub mod client;
pub mod edge;
pub mod gui;
pub mod discovery;
pub mod clipboard;
pub mod firewall;
pub mod autostart;
pub mod ipc;
