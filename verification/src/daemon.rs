//! What the daemon starts, what it does with changes of the clipboard, and what its
//! commands print.

use vstd::prelude::*;

use crate::clipboard::{ClipboardEvent, EventView};
use crate::config::{ClipboardConfig, Config, Transport};
use crate::dispatch;
use crate::encoding;
use crate::pairing::{derefs, seen_later, TrustedDevice, TrustedStore};
use crate::protocol::{opt_view, Message};
use crate::server::{port_of, ServerConfig};
use crate::sort;
use crate::state::{own_id, PeerHandle, ServerState};
use crate::table;
use crate::text;

verus! {

/// What the daemon starts with.
#[derive(Debug, Clone, Copy, PartialEq, Eq, Structural)]
pub struct StartupPlan {
    /// Announce the server on the local network.
    pub announce: bool,
    /// Load a certificate and serve under TLS.
    pub tls: bool,
    /// Show the tray icon.
    pub tray: bool,
    pub port: u16,
    pub poll_interval_ms: u64,
}

/// What the daemon starts with, by its settings.
pub fn startup_plan(config: &Config, server: &ServerConfig, no_tray: bool) -> (r: StartupPlan)
    ensures
        r == (StartupPlan {
            announce: config.discovery.enable_mdns,
            tls: server.security.transport == Transport::Tls,
            tray: !no_tray,
            port: port_of(server.bind@),
            poll_interval_ms: server.clipboard.poll_interval_ms,
        }),
{
    StartupPlan {
        announce: config.discovery.enable_mdns,
        tls: server.security.transport == Transport::Tls,
        tray: !no_tray,
        port: server.port(),
        poll_interval_ms: server.clipboard.poll_interval_ms,
    }
}

/// What becomes of an event of the local clipboard.
#[derive(Debug)]
pub enum LocalAction {
    /// Send the message to the peers.
    Broadcast { message: Message, recipients: Vec<PeerHandle> },
    Warn(String),
    Nothing,
}

/// Whether the image of an event, where it is to be sent, can be written in base64.
pub open spec fn event_fits(event: EventView, cfg: ClipboardConfig) -> bool {
    event matches EventView::Changed(snap) ==> (dispatch::is_image(snap.mime) && cfg.sync_images
        ==> encoding::base64_fits(snap.bytes.len()))
}

/// Takes in an event of the local clipboard: a change that is to be sent goes to every
/// peer, under the daemon's own identifier.
pub fn on_local_event(state: &ServerState, event: ClipboardEvent) -> (r: LocalAction)
    requires
        state.wf(),
        event_fits(event@, state.config.clipboard),
    ensures
        match event@ {
            EventView::BackendLost(e) => r matches LocalAction::Warn(w) && w@ == e,
            EventView::Changed(snap) => match dispatch::message_of(
                snap,
                state.config.clipboard,
                state.config.device_id@,
            ) {
                None => r is Nothing,
                Some(m) => r matches LocalAction::Broadcast { message, recipients } && message@ == m
                    && table::lists_all(recipients@, own_id(), state.peers@),
            },
        },
{
    match event {
        ClipboardEvent::BackendLost(e) => LocalAction::Warn(e),
        ClipboardEvent::Changed(snap) => {
            match dispatch::event_to_message(
                &snap,
                &state.config.clipboard,
                &state.config.device_id,
            ) {
                None => LocalAction::Nothing,
                Some(message) => LocalAction::Broadcast {
                    message,
                    recipients: state.broadcast_except(None),
                },
            }
        },
    }
}

/// How a time is written: the date, the time of day and the zone.
pub const DATE_FORMAT: &'static str = "%Y-%m-%d %H:%M:%S UTC";

/// A time in seconds since the Unix epoch as `format` writes it; none where it lies
/// outside the calendar.
pub uninterp spec fn utc_of(ts: i64, format: Seq<char>) -> Option<Seq<char>>;

/// `chrono::DateTime::from_timestamp`, where it gives a time, written out by that time's
/// `format`: a function of the seconds and of the format. The calendar itself is not
/// spelled out. A format that chrono cannot read would make it panic, so only the one in
/// use is let in.
#[verifier::external_body]
fn utc_text(ts: i64, format: &str) -> (r: Option<String>)
    requires
        format@ == DATE_FORMAT@,
    ensures
        opt_view(r) == utc_of(ts, format@),
{
    chrono::DateTime::from_timestamp(ts, 0).map(|t| t.format(format).to_string())
}

/// When a device was last seen, in words; `date` is the time written out.
pub open spec fn last_seen_of(ts: i64, date: Option<Seq<char>>) -> Seq<char> {
    if ts == 0 {
        "nunca"@
    } else {
        match date {
            Some(d) => d,
            None => text::signed_decimal_of(ts as int),
        }
    }
}

/// When a device was last seen, in words; `date` is the time written out.
pub fn last_seen_text(ts: i64, date: Option<String>) -> (r: String)
    ensures
        r@ == last_seen_of(ts, opt_view(date)),
{
    if ts == 0 {
        return "nunca".to_owned();
    }
    match date {
        Some(d) => d,
        None => text::signed_decimal(ts),
    }
}

/// When a device was last seen, in words: as a date and a time of day, never where it is
/// 0, and as a bare number outside the calendar.
pub fn format_last_seen(ts: i64) -> (r: String)
    ensures
        r@ == last_seen_of(ts, utc_of(ts, DATE_FORMAT@)),
{
    last_seen_text(ts, utc_text(ts, DATE_FORMAT))
}

/// The lines that describe a device.
pub open spec fn device_lines(d: TrustedDevice) -> Seq<Seq<char>> {
    seq![
        "  "@ + d.name@,
        "    ID: "@ + d.id@,
        "    Tipo: "@ + d.kind@,
        "    Último visto: "@ + last_seen_of(
            d.last_seen,
            utc_of(d.last_seen, DATE_FORMAT@),
        ),
    ]
}

/// The lines that describe devices, one after the other.
pub open spec fn listing(l: Seq<TrustedDevice>) -> Seq<Seq<char>>
    decreases l.len(),
{
    if l.len() == 0 {
        Seq::empty()
    } else {
        listing(l.drop_last()) + device_lines(l.last())
    }
}

/// Whether `lines` is the listing of `store`: the devices seen last first.
pub open spec fn is_listing(lines: Seq<Seq<char>>, store: Seq<TrustedDevice>) -> bool {
    if store.len() == 0 {
        lines == seq!["Nenhum device pareado ainda."@]
    } else {
        exists|l: Seq<TrustedDevice>|
            #[trigger] sort::is_sorted_from(store, l, seen_later()) && lines == seq![
                "Devices confiados ("@ + text::decimal_of(store.len()) + "):"@,
            ] + listing(l)
    }
}

/// The lines that list the trusted devices.
pub fn trusted_listing(store: &TrustedStore) -> (r: Vec<String>)
    ensures
        is_listing(text::views(r@), store.devices@),
{
    let mut r: Vec<String> = Vec::new();
    if store.devices.len() == 0 {
        r.push("Nenhum device pareado ainda.".to_owned());
        assert(text::views(r@) =~= seq!["Nenhum device pareado ainda."@]);
        return r;
    }
    let devices = store.trusted_devices();
    let ghost l = derefs(devices@);
    let mut head = text::join("Devices confiados (", text::decimal(devices.len() as u64).as_str());
    head.append("):");
    let ghost first = seq![head@];
    r.push(head);
    let mut i: usize = 0;
    assert(l.len() == store.devices@.len());
    assert(text::views(r@) =~= first + listing(l.take(0)));
    while i < devices.len()
        invariant
            i <= devices@.len(),
            l == derefs(devices@),
            text::views(r@) == first + listing(l.take(i as int)),
        decreases devices@.len() - i,
    {
        let d = devices[i];
        let ghost before = text::views(r@);
        r.push(text::join("  ", d.name.as_str()));
        r.push(text::join("    ID: ", d.id.as_str()));
        r.push(text::join("    Tipo: ", d.kind.as_str()));
        r.push(text::join("    Último visto: ", format_last_seen(d.last_seen).as_str()));
        assert(text::views(r@) =~= before + device_lines(*d));
        assert(l.take(i + 1).drop_last() =~= l.take(i as int));
        assert(l.take(i + 1).last() == *d);
        assert(text::views(r@) =~= first + listing(l.take(i + 1)));
        i = i + 1;
    }
    assert(l.take(i as int) =~= l);
    r
}

/// A change of the local clipboard that is to be sent goes to every peer, as the message that
/// it makes under the daemon's own name; one that is not goes to nobody, and a lost backend is
/// a warning.
pub proof fn law_local_changes(
    state: &ServerState,
    event: ClipboardEvent,
    r: LocalAction,
    m: Option<Message>,
    k: Seq<char>,
)
    requires
        call_ensures(on_local_event, (state, event), r),
        event is Changed ==> call_ensures(
            dispatch::event_to_message,
            (&*event->Changed_0, &state.config.clipboard, &state.config.device_id),
            m,
        ),
    ensures
        event is BackendLost ==> r is Warn && r->Warn_0@ == event->BackendLost_0@,
        event is Changed ==> (r is Broadcast <==> m is Some) && (m is None ==> r is Nothing),
        event is Changed && r is Broadcast ==> r->message@ == m->Some_0@,
        r is Broadcast && state.peers@.contains_key(k) ==> r->recipients@.contains(state.peers@[k]),
{
    if event is Changed {
        assert(event@ == EventView::Changed(event->Changed_0@));
    } else {
        assert(event@ is BackendLost);
    }
    if r is Broadcast && state.peers@.contains_key(k) {
        assert(state.peers@.contains_key(k));
    }
}

/// The daemon announces itself, serves under TLS and shows its icon as its settings say.
pub proof fn law_startup(config: &Config, server: &ServerConfig, no_tray: bool, r: StartupPlan, port: u16)
    requires
        call_ensures(startup_plan, (config, server, no_tray), r),
        call_ensures(ServerConfig::port, (server,), port),
    ensures
        r.announce <==> config.discovery.enable_mdns,
        r.tls <==> server.security.transport == Transport::Tls,
        r.tray <==> !no_tray,
        r.port == port,
        r.poll_interval_ms == server.clipboard.poll_interval_ms,
{
}

/// When a device was seen is its date where it has one, its number where it has none, and
/// never where it is 0.
pub proof fn law_last_seen(ts: i64, date: Option<String>, r: String, bare: String)
    requires
        call_ensures(last_seen_text, (ts, date), r),
        call_ensures(text::signed_decimal, (ts,), bare),
    ensures
        ts == 0 ==> r@ == "nunca"@,
        ts != 0 && date is Some ==> r@ == date->Some_0@,
        ts != 0 && date is None ==> r@ == bare@,
{
}

/// The listing has a line for all and four for each device: its name, who it is, its sort and
/// when it was seen; with none it says so.
pub proof fn law_device_listing(store: &TrustedStore, r: Vec<String>, i: int)
    requires
        call_ensures(trusted_listing, (store,), r),
    ensures
        store.devices@.len() == 0 ==> r@.len() == 1 && r@[0]@ == "Nenhum device pareado ainda."@,
        store.devices@.len() > 0 ==> r@.len() == 1 + 4 * store.devices@.len() && r@[0]@
            == "Devices confiados ("@ + text::decimal_of(store.devices@.len()) + "):"@,
        0 <= i < store.devices@.len() ==> text::views(r@).contains("  "@ + store.devices@[i].name@)
            && text::views(r@).contains("    ID: "@ + store.devices@[i].id.0@) && text::views(
            r@,
        ).contains("    Tipo: "@ + store.devices@[i].kind@),
{
    let v = text::views(r@);
    let source = store.devices@;
    assert(v.len() == r@.len());
    if source.len() == 0 {
        assert(v[0] == r@[0]@);
    } else {
        let l = choose|l: Seq<TrustedDevice>|
            #[trigger] sort::is_sorted_from(source, l, seen_later()) && v == seq![
                "Devices confiados ("@ + text::decimal_of(source.len()) + "):"@,
            ] + listing(l);
        assert(sort::is_sorted_from(source, l, seen_later()));
        lemma_listing(l);
        assert(v[0] == r@[0]@);
        if 0 <= i < source.len() {
            let p = choose|p: Seq<usize>|
                #![trigger sort::is_arrangement(p, source.len())]
                {
                    &&& sort::is_arrangement(p, source.len())
                    &&& sort::is_stable(p, |i: int, j: int| seen_later()(source[i], source[j]))
                    &&& l.len() == source.len()
                    &&& forall|i: int| 0 <= i < l.len() ==> #[trigger] l[i] == source[p[i] as int]
                };
            sort::lemma_arrangement_covers(p, source.len(), i);
            let k = choose|k: int| 0 <= k < source.len() && #[trigger] p[k] == i;
            assert(l[k] == source[i]);
            assert(v[1 + 4 * k] == listing(l)[4 * k]);
            assert(v[2 + 4 * k] == listing(l)[4 * k + 1]);
            assert(v[3 + 4 * k] == listing(l)[4 * k + 2]);
        }
    }
}

proof fn lemma_listing(l: Seq<TrustedDevice>)
    ensures
        listing(l).len() == 4 * l.len(),
        forall|k: int|
            0 <= k < l.len() ==> {
                &&& listing(l)[4 * k] == "  "@ + (#[trigger] l[k]).name@
                &&& listing(l)[4 * k + 1] == "    ID: "@ + l[k].id.0@
                &&& listing(l)[4 * k + 2] == "    Tipo: "@ + l[k].kind@
            },
    decreases l.len(),
{
    if l.len() > 0 {
        let d = l.drop_last();
        lemma_listing(d);
        assert forall|k: int| 0 <= k < l.len() implies {
            &&& listing(l)[4 * k] == "  "@ + (#[trigger] l[k]).name@
            &&& listing(l)[4 * k + 1] == "    ID: "@ + l[k].id.0@
            &&& listing(l)[4 * k + 2] == "    Tipo: "@ + l[k].kind@
        } by {
            if k < d.len() {
                assert(d[k] == l[k]);
            } else {
                assert(l[k] == l.last());
            }
        }
    }
}

} // verus!
