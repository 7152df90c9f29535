//! The local IPC between the user interface and the background daemon:
//! newline-delimited JSON commands and status replies.
use vstd::prelude::*;
use crate::active_client::{ActiveClientState, ClientSnapshot};
use crate::text::{decimal, push_decimal};

verus! {

/// The status request line.
pub const STATUS_COMMAND: &'static str = "{\"cmd\":\"status\"}\n";

/// A command from the user interface.
#[derive(Debug, Clone, Copy, PartialEq, Eq)]
pub enum GuiCommand {
    Status,
    Switch { slot: u8 },
    SetShareInput { enabled: bool },
}

/// One client in a status reply.
#[derive(Debug, Clone)]
pub struct IpcClientInfo {
    pub slot: u8,
    pub name: String,
    pub active: bool,
}

/// The daemon's answer to a status command.
#[derive(Debug)]
pub struct StatusResponse {
    pub clients: Vec<IpcClientInfo>,
    pub active_slot: u8,
    pub share_input: bool,
}

/// The status reply for a registry snapshot: every client in order with
/// whether it is active, the active slot, and whether input is shared.
pub fn status_response(snapshot: Vec<ClientSnapshot>, active_slot: u8, share_input: bool) -> (r:
    StatusResponse)
    ensures
        r.clients@.len() == snapshot@.len(),
        forall|i: int|
            0 <= i < r.clients@.len() ==> #[trigger] r.clients@[i].slot == snapshot@[i].slot
                && r.clients@[i].name@ == snapshot@[i].name@ && r.clients@[i].active
                == snapshot@[i].is_active,
        r.active_slot == active_slot,
        r.share_input == share_input,
{
    let mut clients: Vec<IpcClientInfo> = Vec::new();
    let mut i: usize = 0;
    while i < snapshot.len()
        invariant
            0 <= i <= snapshot@.len(),
            clients@.len() == i,
            forall|j: int|
                0 <= j < i ==> #[trigger] clients@[j].slot == snapshot@[j].slot && clients@[j].name@
                    == snapshot@[j].name@ && clients@[j].active == snapshot@[j].is_active,
        decreases snapshot@.len() - i,
    {
        let s = &snapshot[i];
        clients.push(IpcClientInfo { slot: s.slot, name: s.name.clone(), active: s.is_active });
        i = i + 1;
    }
    StatusResponse { clients, active_slot, share_input }
}

/// The status reply for the current registry.
pub fn registry_status(state: &ActiveClientState, share_input: bool) -> (r: StatusResponse)
    ensures
        r.clients@.len() == state.clients().len(),
        forall|i: int|
            0 <= i < r.clients@.len() ==> #[trigger] r.clients@[i].slot == state.clients()[i].slot
                && r.clients@[i].name@ == state.clients()[i].name@ && r.clients@[i].active == (
                state.clients()[i].slot == state.active()),
        r.active_slot == state.active(),
        r.share_input == share_input,
{
    let snap = state.snapshot();
    status_response(snap, state.active_slot(), share_input)
}

/// The command line asking the daemon to switch to `slot`.
pub fn switch_command(slot: u8) -> (r: String)
    ensures
        r@ == "{\"cmd\":\"switch\",\"slot\":"@ + decimal(slot as nat) + "}\n"@,
{
    let mut s = "{\"cmd\":\"switch\",\"slot\":".to_owned();
    push_decimal(&mut s, slot as u64);
    s.append("}\n");
    s
}

} // verus!
