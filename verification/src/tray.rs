//! What the tray icon shows.

use vstd::prelude::*;

use crate::protocol::opt_view;
use crate::state::{own_id, PeerHandle, ServerState};
use crate::table;
use crate::text;

verus! {

/// What the tray's menu asks for.
#[derive(Debug, Clone, Copy, PartialEq, Eq, Structural)]
pub enum TrayCommand {
    ShowPin,
    ListPeers,
    Quit,
}

/// How the daemon is doing.
#[derive(Debug, Clone, Copy, PartialEq, Eq, Structural)]
pub enum DaemonState {
    Running,
    Idle,
    Error,
}

impl Default for DaemonState {
    fn default() -> (r: Self)
        ensures
            r == DaemonState::Idle,
    {
        DaemonState::Idle
    }
}

impl DaemonState {
    /// The word for the state.
    pub open spec fn label(self) -> Seq<char> {
        match self {
            DaemonState::Running => "rodando"@,
            DaemonState::Idle => "ocioso"@,
            DaemonState::Error => "erro"@,
        }
    }

    pub fn to_string(&self) -> (r: String)
        ensures
            r@ == self.label(),
    {
        match self {
            DaemonState::Running => "rodando".to_owned(),
            DaemonState::Idle => "ocioso".to_owned(),
            DaemonState::Error => "erro".to_owned(),
        }
    }
}

/// What the tray shows at one moment.
#[derive(Debug)]
pub struct TrayStatus {
    pub peer_count: usize,
    pub pin: Option<String>,
    pub state: DaemonState,
}

impl Default for TrayStatus {
    fn default() -> (r: Self)
        ensures
            r.peer_count == 0,
            r.pin is None,
            r.state == DaemonState::Idle,
    {
        TrayStatus { peer_count: 0, pin: None, state: DaemonState::default() }
    }
}

impl TrayStatus {
    /// The line that sums the status up.
    pub open spec fn label(self) -> Seq<char> {
        text::decimal_of(self.peer_count as nat) + " peer(s) conectado(s) · estado: "@
            + self.state.label() + " · PIN: "@ + match self.pin {
            Some(p) => p@,
            None => "nenhum"@,
        }
    }

    /// The line that sums the status up.
    pub fn status_label(&self) -> (r: String)
        ensures
            r@ == self.label(),
    {
        let mut r = text::decimal(self.peer_count as u64);
        r.append(" peer(s) conectado(s) · estado: ");
        r.append(self.state.to_string().as_str());
        r.append(" · PIN: ");
        match &self.pin {
            Some(p) => r.append(p.as_str()),
            None => r.append("nenhum"),
        }
        r
    }

    /// The text of the tooltip.
    pub fn tooltip_description(&self) -> (r: String)
        ensures
            r@ == "clipsyncd\n"@ + self.label(),
    {
        text::join("clipsyncd\n", self.status_label().as_str())
    }
}

/// Whether `r` is the status of a running server at `now`, a time of its pairing clock.
pub open spec fn is_status(state: ServerState, now: u128, r: TrayStatus) -> bool {
    &&& r.peer_count == state.peers@.len()
    &&& r.state == DaemonState::Running
    &&& opt_view(r.pin) == state.pairing@.pin_at(now)
}

/// The status of a running server.
pub fn status_of(state: &ServerState) -> (r: TrayStatus)
    requires
        state.wf(),
    ensures
        exists|now: u128| #[trigger] is_status(*state, now, r),
{
    status_at(state, state.pairing.now())
}

/// The status of a running server at `now`.
pub fn status_at(state: &ServerState, now: u128) -> (r: TrayStatus)
    requires
        state.wf(),
    ensures
        is_status(*state, now, r),
{
    TrayStatus {
        peer_count: state.peer_count(),
        pin: state.pairing.active_pin_at(now),
        state: DaemonState::Running,
    }
}

/// What to do for a command of the tray's menu.
#[derive(Debug)]
pub enum TrayAction {
    /// Show the code, or that there is none.
    ShowPin(String),
    /// Show how many peers there are, and log each.
    ShowPeers { notice: String, peers: Vec<PeerHandle> },
    /// End the daemon.
    Quit,
}

/// Whether `r` is what a command comes to at `now`, a time of the pairing clock.
pub open spec fn is_answer(command: TrayCommand, state: ServerState, now: u128, r: TrayAction) -> bool {
    match command {
        TrayCommand::ShowPin => r matches TrayAction::ShowPin(body) && body@ == pin_text(
            state.pairing@.pin_at(now),
        ),
        TrayCommand::ListPeers => r matches TrayAction::ShowPeers { notice, peers } && {
            &&& table::lists_all(peers@, own_id(), state.peers@)
            &&& notice@ == peers_text(peers@.len())
            &&& forall|i: int, j: int|
                0 <= i < j < peers@.len() ==> !text::precedes(
                    (#[trigger] peers@[j]).name@,
                    (#[trigger] peers@[i]).name@,
                )
        },
        TrayCommand::Quit => r is Quit,
    }
}

/// Carries out a command of the tray's menu on the server's state.
pub fn on_command(command: TrayCommand, state: &ServerState) -> (r: TrayAction)
    requires
        state.wf(),
    ensures
        exists|now: u128| #[trigger] is_answer(command, *state, now, r),
{
    on_command_at(command, state, state.pairing.now())
}

/// Carries out a command of the tray's menu on the server's state at `now`.
pub fn on_command_at(command: TrayCommand, state: &ServerState, now: u128) -> (r: TrayAction)
    requires
        state.wf(),
    ensures
        is_answer(command, *state, now, r),
{
    match command {
        TrayCommand::ShowPin => TrayAction::ShowPin(
            pin_notice(&state.pairing.active_pin_at(now)),
        ),
        TrayCommand::ListPeers => {
            let peers = state.peer_list();
            TrayAction::ShowPeers { notice: peers_notice(peers.len()), peers }
        },
        TrayCommand::Quit => TrayAction::Quit,
    }
}

/// What the notification of a code says.
pub open spec fn pin_text(pin: Option<Seq<char>>) -> Seq<char> {
    match pin {
        Some(p) => p,
        None => "Nenhum PIN ativo"@,
    }
}

/// What the notification of `n` peers says.
pub open spec fn peers_text(n: nat) -> Seq<char> {
    text::decimal_of(n) + " peer(s) conectado(s)"@
}

/// What the notification of the code says.
pub fn pin_notice(pin: &Option<String>) -> (r: String)
    ensures
        r@ == pin_text(opt_view(*pin)),
{
    match pin {
        Some(p) => p.clone(),
        None => "Nenhum PIN ativo".to_owned(),
    }
}

/// What the notification of the peers says.
pub fn peers_notice(peer_count: usize) -> (r: String)
    ensures
        r@ == peers_text(peer_count as nat),
{
    let mut r = text::decimal(peer_count as u64);
    r.append(" peer(s) conectado(s)");
    r
}

/// The tray shows the code while it is good and that there is none otherwise, how many peers
/// there are, and gives them all; it ends the daemon when asked to, and only then.
pub proof fn law_tray(
    command: TrayCommand,
    state: &ServerState,
    now: u128,
    r: TrayAction,
    status: TrayStatus,
    pin: Option<String>,
    peers: usize,
)
    requires
        call_ensures(on_command_at, (command, state, now), r),
        call_ensures(status_at, (state, now), status),
        call_ensures(crate::pairing::PairingManager::active_pin_at, (&state.pairing, now), pin),
        call_ensures(ServerState::peer_count, (state,), peers),
    ensures
        status.peer_count == peers && status.state == DaemonState::Running,
        status.pin is Some <==> pin is Some,
        pin is Some ==> status.pin->Some_0@ == pin->Some_0@,
        command == TrayCommand::ShowPin && pin is Some ==> r is ShowPin && r->ShowPin_0@
            == pin->Some_0@,
        command == TrayCommand::ShowPin && pin is None ==> r is ShowPin && r->ShowPin_0@
            == "Nenhum PIN ativo"@,
        command == TrayCommand::ListPeers ==> r is ShowPeers && r->notice@ == text::decimal_of(
            r->peers@.len(),
        ) + " peer(s) conectado(s)"@,
        command == TrayCommand::ListPeers ==> forall|k: Seq<char>| #[trigger]
            state.peers@.contains_key(k) ==> r->peers@.contains(state.peers@[k]),
        r is Quit <==> command == TrayCommand::Quit,
{
    assert(opt_view(status.pin) is Some <==> status.pin is Some);
    assert(opt_view(pin) is Some <==> pin is Some);
    if command == TrayCommand::ListPeers {
        assert forall|k: Seq<char>| #[trigger]
            state.peers@.contains_key(k) implies r->peers@.contains(state.peers@[k]) by {}
    }
}

/// The status line tells the number of peers, the daemon's state and the code.
pub proof fn law_status_line(s: &TrayStatus, line: String, tip: String)
    requires
        call_ensures(TrayStatus::status_label, (s,), line),
        call_ensures(TrayStatus::tooltip_description, (s,), tip),
    ensures
        line@ == text::decimal_of(s.peer_count as nat) + " peer(s) conectado(s) · estado: "@ + (
        if s.state == DaemonState::Running {
            "rodando"@
        } else if s.state == DaemonState::Idle {
            "ocioso"@
        } else {
            "erro"@
        }) + " · PIN: "@ + (if s.pin is Some {
            s.pin->Some_0@
        } else {
            "nenhum"@
        }),
        tip@ == "clipsyncd\n"@ + line@,
{
}

/// The notices tell the code, or that there is none, and the number of peers; without peers the
/// status is still that the daemon runs.
pub proof fn law_notices(
    pin: &Option<String>,
    code: String,
    n: usize,
    peers: String,
    state: &ServerState,
    status: TrayStatus,
    command: TrayCommand,
    r: TrayAction,
)
    requires
        call_ensures(pin_notice, (pin,), code),
        call_ensures(peers_notice, (n,), peers),
        call_ensures(status_of, (state,), status),
        call_ensures(on_command, (command, state), r),
    ensures
        pin is Some ==> code@ == pin->Some_0@,
        pin is None ==> code@ == "Nenhum PIN ativo"@,
        peers@ == text::decimal_of(n as nat) + " peer(s) conectado(s)"@,
        status.state == DaemonState::Running && status.peer_count == state.peers@.dom().len(),
        status.pin is Some ==> state.pairing@.challenge is Some && status.pin->Some_0@
            == state.pairing@.challenge->Some_0.code@,
        r is Quit <==> command == TrayCommand::Quit,
        r is ShowPin <==> command == TrayCommand::ShowPin,
        r is ShowPeers <==> command == TrayCommand::ListPeers,
        r is ShowPin ==> r->ShowPin_0@ == "Nenhum PIN ativo"@ || (state.pairing@.challenge is Some
            && r->ShowPin_0@ == state.pairing@.challenge->Some_0.code@),
        r is ShowPeers ==> forall|k: Seq<char>| #[trigger]
            state.peers@.contains_key(k) ==> r->peers@.contains(state.peers@[k]),
{
    let now = choose|now: u128| #[trigger] is_status(*state, now, status);
    assert(is_status(*state, now, status));
    let then = choose|now: u128| #[trigger] is_answer(command, *state, now, r);
    assert(is_answer(command, *state, then, r));
    assert(opt_view(status.pin) is Some <==> status.pin is Some);
    if r is ShowPeers {
        assert forall|k: Seq<char>| #[trigger]
            state.peers@.contains_key(k) implies r->peers@.contains(state.peers@[k]) by {}
    }
}

} // verus!
