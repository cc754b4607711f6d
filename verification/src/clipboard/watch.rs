//! Watching the clipboard: what counts as a change, and how a burst of changes becomes
//! one event.
//!
//! A watch is either told of changes by `wl-paste --watch`, or reads the clipboard at an
//! interval. Both go through one `Watcher`. Times are nanoseconds of a steady clock.

use vstd::prelude::*;

use super::{
    snapshot_of, BackendKind, ClipboardEvent, ClipboardManager, ClipboardSnapshot, ClipboardTools, CommandView,
    EventView, ManagerView, SelfWriteTracker, SnapshotView, ToolCommand, WriteOrigin, WriteView,
    MIME_HTML, MIME_JPEG, MIME_PNG, MIME_TEXT,
};
use crate::error::{Error, ErrorView};
use crate::hashing;
use crate::text;

verus! {

/// Changes that follow each other within this time become one event: 300 ms.
pub const DEBOUNCE: u128 = 300_000_000;

/// The types that a watch asks for, best first.
pub open spec fn watched_types() -> Seq<Seq<char>> {
    seq![MIME_TEXT@, MIME_PNG@, MIME_JPEG@, MIME_HTML@]
}

/// The types that a watch asks for, best first.
pub fn watched_mimes() -> (r: Vec<String>)
    ensures
        text::views(r@) == watched_types(),
{
    let r: Vec<String> = vec![
        MIME_TEXT.to_owned(),
        MIME_PNG.to_owned(),
        MIME_JPEG.to_owned(),
        MIME_HTML.to_owned(),
    ];
    assert(text::views(r@) =~= watched_types());
    r
}

/// What of a read is a change: content that is neither what a peer had written here nor
/// what was seen last.
pub open spec fn is_news(
    last_seen: Option<Seq<char>>,
    self_write: Option<Seq<char>>,
    read: Option<SnapshotView>,
) -> bool {
    read matches Some(s) && self_write != Some(s.sha256) && last_seen != Some(s.sha256)
}

/// What was seen last, after a read.
pub open spec fn seen_after_read(read: Option<SnapshotView>) -> Option<Seq<char>> {
    match read {
        Some(s) => Some(s.sha256),
        None => None,
    }
}

/// The write for a peer that is still to be seen, after a read: it is crossed out once
/// it was seen, or once the clipboard is empty.
pub open spec fn self_write_after_read(
    self_write: Option<Seq<char>>,
    read: Option<SnapshotView>,
) -> Option<Seq<char>> {
    match read {
        Some(s) => if self_write == Some(s.sha256) {
            None
        } else {
            self_write
        },
        None => None,
    }
}

/// Gives back what was read where it is a change. What a peer had written here is taken
/// in without a word, once; so is what was seen last.
pub fn read_for_emit(
    me: &mut ClipboardManager,
    tracker: &mut SelfWriteTracker,
    read: Option<ClipboardSnapshot>,
) -> (r: Option<ClipboardSnapshot>)
    ensures
        ({
            let seen = match read {
                Some(s) => Some(s@),
                None => None,
            };
            &&& final(me)@ == (ManagerView { last_seen: seen_after_read(seen), ..old(me)@ })
            &&& final(tracker)@ == self_write_after_read(old(tracker)@, seen)
            &&& r is Some == is_news(old(me)@.last_seen, old(tracker)@, seen)
            &&& r matches Some(s) ==> seen == Some(s@)
        }),
{
    let snap = match read {
        None => {
            me.forget_seen();
            tracker.clear();
            return None;
        },
        Some(snap) => snap,
    };
    if tracker.matches(snap.sha256.as_str()) {
        tracker.clear();
        me.note_seen(snap.sha256);
        return None;
    }
    if me.has_seen(snap.sha256.as_str()) {
        return None;
    }
    me.note_seen(snap.sha256.clone());
    Some(snap)
}

/// The last of a burst of snapshots, held back until the burst is over.
#[derive(Debug)]
pub struct Debouncer {
    pending: Option<ClipboardSnapshot>,
    fed_at: u128,
}

/// The contents of a `Debouncer`: what is held back, and when it came.
pub struct DebouncerView {
    pub pending: Option<SnapshotView>,
    pub fed_at: u128,
}

impl View for Debouncer {
    type V = DebouncerView;

    closed spec fn view(&self) -> DebouncerView {
        DebouncerView {
            pending: match self.pending {
                Some(s) => Some(s@),
                None => None,
            },
            fed_at: self.fed_at,
        }
    }
}

impl DebouncerView {
    /// Whether something is held back and its time has come.
    pub open spec fn due(self, now: u128) -> bool {
        self.pending is Some && now >= self.fed_at + DEBOUNCE
    }

    /// The debouncer once `snap` came at `now`: it replaces what was held back.
    pub open spec fn fed(self, snap: SnapshotView, now: u128) -> DebouncerView {
        DebouncerView { pending: Some(snap), fed_at: now }
    }
}

impl Default for Debouncer {
    fn default() -> (r: Self)
        ensures
            r@.pending is None,
    {
        Debouncer { pending: None, fed_at: 0 }
    }
}

impl Debouncer {
    /// Holds `snap` back in place of what was held, and starts the wait again.
    pub fn feed_at(&mut self, snap: ClipboardSnapshot, now: u128)
        ensures
            final(self)@ == old(self)@.fed(snap@, now),
    {
        self.pending = Some(snap);
        self.fed_at = now;
    }

    /// Lets go of what is held back, once its time has come.
    pub fn fire_at(&mut self, now: u128) -> (r: Option<ClipboardSnapshot>)
        ensures
            r is Some == old(self)@.due(now),
            r matches Some(s) ==> old(self)@.pending == Some(s@) && final(self)@.pending is None,
            r is None ==> final(self)@ == old(self)@,
    {
        if now >= self.fed_at && now - self.fed_at >= DEBOUNCE {
            self.pending.take()
        } else {
            None
        }
    }

    pub fn has_pending(&self) -> (r: bool)
        ensures
            r == (self@.pending is Some),
    {
        self.pending.is_some()
    }
}

/// A `Debouncer` and whether its timer runs.
#[derive(Debug)]
pub struct DebounceEmitter {
    debouncer: Debouncer,
    timer_armed: bool,
}

/// The contents of a `DebounceEmitter`.
pub struct EmitterView {
    pub debouncer: DebouncerView,
    pub timer_armed: bool,
}

impl View for DebounceEmitter {
    type V = EmitterView;

    closed spec fn view(&self) -> EmitterView {
        EmitterView { debouncer: self.debouncer@, timer_armed: self.timer_armed }
    }
}

impl DebounceEmitter {
    pub fn new() -> (r: Self)
        ensures
            r@.debouncer.pending is None,
            !r@.timer_armed,
    {
        DebounceEmitter { debouncer: Debouncer::default(), timer_armed: false }
    }

    /// Holds `snap` back; the caller starts a timer of `DEBOUNCE`.
    pub fn feed(&mut self, snap: ClipboardSnapshot, now: u128)
        ensures
            final(self)@ == (EmitterView {
                debouncer: old(self)@.debouncer.fed(snap@, now),
                timer_armed: true,
            }),
    {
        self.debouncer.feed_at(snap, now);
        self.timer_armed = true;
    }

    /// Whether the timer is worth waiting for.
    pub fn is_ready(&self) -> (r: bool)
        ensures
            r == (self@.timer_armed && self@.debouncer.pending is Some),
    {
        self.timer_armed && self.debouncer.has_pending()
    }

    /// What to emit now that the timer ended, if its time has come.
    pub fn try_fire(&mut self, now: u128) -> (r: Option<ClipboardSnapshot>)
        ensures
            r is Some == old(self)@.debouncer.due(now),
            r matches Some(s) ==> {
                &&& old(self)@.debouncer.pending == Some(s@)
                &&& final(self)@.debouncer.pending is None
                &&& !final(self)@.timer_armed
            },
            r is None ==> final(self)@ == old(self)@,
    {
        match self.debouncer.fire_at(now) {
            Some(snap) => {
                self.timer_armed = false;
                Some(snap)
            },
            None => None,
        }
    }
}

/// What a watch does after a read.
#[derive(Debug)]
pub enum WatchAction {
    /// Nothing.
    Wait,
    /// Start the debounce timer again.
    ArmTimer,
    /// Report that the clipboard could not be read.
    Report(ClipboardEvent),
}

/// One watch of the clipboard.
#[derive(Debug)]
pub struct Watcher {
    manager: ClipboardManager,
    emitter: DebounceEmitter,
}

/// The contents of a `Watcher`.
pub struct WatcherView {
    pub manager: ManagerView,
    pub emitter: EmitterView,
}

impl View for Watcher {
    type V = WatcherView;

    closed spec fn view(&self) -> WatcherView {
        WatcherView { manager: self.manager@, emitter: self.emitter@ }
    }
}

impl Watcher {
    pub fn new(manager: ClipboardManager) -> (r: Self)
        ensures
            r@.manager == manager@,
            r@.emitter.debouncer.pending is None,
            !r@.emitter.timer_armed,
    {
        Watcher { manager, emitter: DebounceEmitter::new() }
    }

    /// The manager to read through.
    pub fn manager(&self) -> (r: &ClipboardManager)
        ensures
            r@ == self@.manager,
    {
        &self.manager
    }

    /// The manager, for another watch that goes on from what this one has seen. What was
    /// held back is dropped.
    pub fn into_manager(self) -> (r: ClipboardManager)
        ensures
            r@ == self@.manager,
    {
        self.manager
    }

    /// Whether the debounce timer is worth waiting for.
    pub fn is_ready(&self) -> (r: bool)
        ensures
            r == (self@.emitter.timer_armed && self@.emitter.debouncer.pending is Some),
    {
        self.emitter.is_ready()
    }

    /// Takes in a read of the clipboard. A change is held back for `DEBOUNCE`.
    pub fn on_read(
        &mut self,
        tracker: &mut SelfWriteTracker,
        read: Result<Option<ClipboardSnapshot>, Error>,
        now: u128,
    ) -> (r: WatchAction)
        ensures
            match read {
                Err(e) => {
                    &&& r matches WatchAction::Report(event) && event@ == EventView::BackendLost(
                        e@.text(),
                    )
                    &&& final(self)@ == old(self)@
                    &&& final(tracker)@ == old(tracker)@
                },
                Ok(seen) => {
                    let s = match seen {
                        Some(s) => Some(s@),
                        None => None,
                    };
                    let news = is_news(old(self)@.manager.last_seen, old(tracker)@, s);
                    &&& final(self)@.manager == (ManagerView {
                        last_seen: seen_after_read(s),
                        ..old(self)@.manager
                    })
                    &&& final(tracker)@ == self_write_after_read(old(tracker)@, s)
                    &&& if news {
                        r is ArmTimer && final(self)@.emitter == (EmitterView {
                            debouncer: old(self)@.emitter.debouncer.fed(s->Some_0, now),
                            timer_armed: true,
                        })
                    } else {
                        r is Wait && final(self)@.emitter == old(self)@.emitter
                    }
                },
            },
    {
        match read {
            Err(e) => WatchAction::Report(ClipboardEvent::BackendLost(e.to_string())),
            Ok(seen) => match read_for_emit(&mut self.manager, tracker, seen) {
                Some(snap) => {
                    self.emitter.feed(snap, now);
                    WatchAction::ArmTimer
                },
                None => WatchAction::Wait,
            },
        }
    }

    /// What to emit now that the debounce timer ended.
    pub fn on_timer(&mut self, now: u128) -> (r: Option<ClipboardEvent>)
        ensures
            final(self)@.manager == old(self)@.manager,
            r is Some == old(self)@.emitter.debouncer.due(now),
            r matches Some(event) ==> {
                &&& event@ == EventView::Changed(old(self)@.emitter.debouncer.pending->Some_0)
                &&& final(self)@.emitter.debouncer.pending is None
                &&& !final(self)@.emitter.timer_armed
            },
            r is None ==> final(self)@ == old(self)@,
    {
        match self.emitter.try_fire(now) {
            Some(snap) => Some(ClipboardEvent::Changed(Box::new(snap))),
            None => None,
        }
    }
}

/// What the pipe of `wl-paste --watch` gave.
#[derive(Debug)]
pub enum PipeEvent {
    /// That many bytes, which say only that something changed.
    Data(usize),
    Error(String),
}

/// Why the watch ends after `event`, if so: the pipe closed, or reading it failed. Else
/// the clipboard is to be read.
pub fn pipe_failure(event: &PipeEvent) -> (r: Option<Error>)
    ensures
        match *event {
            PipeEvent::Data(n) => {
                &&& r is Some == (n == 0)
                &&& r matches Some(e) ==> e@ == ErrorView::Clipboard(
                    "wl-paste --watch encerrou (EOF)"@,
                )
            },
            PipeEvent::Error(reason) => r matches Some(e) && e@ == ErrorView::Clipboard(
                "wl-paste --watch read: "@ + reason@,
            ),
        },
{
    match event {
        PipeEvent::Data(n) => if *n == 0 {
            Some(Error::Clipboard("wl-paste --watch encerrou (EOF)".to_owned()))
        } else {
            None
        },
        PipeEvent::Error(reason) => Some(
            Error::Clipboard(text::join("wl-paste --watch read: ", reason.as_str())),
        ),
    }
}

/// The command that tells of changes under Wayland.
pub fn watch_command() -> (r: ToolCommand)
    ensures
        r@ == (CommandView { program: "wl-paste"@, args: seq!["--watch"@, "cat"@] }),
{
    let args: Vec<String> = vec!["--watch".to_owned(), "cat".to_owned()];
    let r = ToolCommand { program: "wl-paste".to_owned(), args };
    assert(r@.args =~= seq!["--watch"@, "cat"@]);
    r
}

/// Whether the clipboard can tell of changes; else it is read at an interval.
pub fn is_event_driven(backend: BackendKind, tools: &ClipboardTools) -> (r: bool)
    ensures
        r == (backend == BackendKind::Wayland && tools.wl_paste),
{
    backend == BackendKind::Wayland && tools.wl_paste
}

/// What a peer had written here is not emitted when it is seen on the clipboard, and
/// from then on counts as seen: it is not emitted on the next read either.
pub proof fn law_no_echo(last_seen: Option<Seq<char>>, s: SnapshotView)
    ensures
        !is_news(last_seen, Some(s.sha256), Some(s)),
        ({
            let seen = seen_after_read(Some(s));
            let write = self_write_after_read(Some(s.sha256), Some(s));
            &&& write is None
            &&& !is_news(seen, write, Some(s))
        }),
{
}

/// What was written for a peer is not taken for a change when it is read back: its
/// digest is the one that the write was remembered by.
pub proof fn law_remote_write_is_not_echoed(
    last_seen: Option<Seq<char>>,
    write: WriteView,
    mime: Seq<char>,
)
    requires
        write.origin == WriteOrigin::Remote,
    ensures
        !is_news(
            last_seen,
            Some(hashing::hash_of(write.data)),
            Some(snapshot_of(mime, write.data)),
        ),
{
}

/// Content that stays on the clipboard is emitted at most once.
pub proof fn law_no_repeat(self_write: Option<Seq<char>>, s: SnapshotView)
    ensures
        !is_news(
            seen_after_read(Some(s)),
            self_write_after_read(self_write, Some(s)),
            Some(s),
        ),
{
}

/// A debouncer after `fed` came, each a snapshot and its time.
pub open spec fn fed_all(d: DebouncerView, fed: Seq<(SnapshotView, u128)>) -> DebouncerView
    decreases fed.len(),
{
    if fed.len() == 0 {
        d
    } else {
        fed_all(d, fed.drop_last()).fed(fed.last().0, fed.last().1)
    }
}

/// Of a burst only the last snapshot is emitted, and not before `DEBOUNCE` has passed
/// since it came.
pub proof fn law_burst_becomes_its_last(
    d: DebouncerView,
    fed: Seq<(SnapshotView, u128)>,
    now: u128,
)
    requires
        fed.len() > 0,
    ensures
        fed_all(d, fed).due(now) <==> now - fed.last().1 >= DEBOUNCE,
        fed_all(d, fed).pending == Some(fed.last().0),
{
}

/// Whatever its type, content that is neither what a peer had written here nor what was
/// seen last is given back, as it was read; anything else is not. What was read counts as
/// seen from then on.
pub proof fn law_every_change_is_given_back(
    me: &mut ClipboardManager,
    tracker: &mut SelfWriteTracker,
    read: Option<ClipboardSnapshot>,
    r: Option<ClipboardSnapshot>,
)
    requires
        call_ensures(read_for_emit, (me, tracker, read), r),
    ensures
        read is None ==> r is None && final(me)@.last_seen is None && final(tracker)@ is None,
        read is Some ==> {
            let s = read->Some_0;
            let own = old(tracker)@ == Some(s.sha256@);
            let seen = old(me)@.last_seen == Some(s.sha256@);
            &&& !own && !seen ==> r is Some && r->Some_0.mime@ == s.mime@ && r->Some_0.bytes@
                == s.bytes@ && r->Some_0.sha256@ == s.sha256@ && r->Some_0@ == s@
            &&& own || seen ==> r is None
            &&& final(me)@.last_seen == Some(s.sha256@)
            &&& own ==> final(tracker)@ is None
            &&& !own ==> final(tracker)@ == old(tracker)@
        },
        final(me)@.backend == old(me)@.backend,
{
}

/// A watch that reads a change at `then` reports exactly that change once its timer ends at
/// `now`, 300 milliseconds later or more, and not before; having reported it, it has
/// nothing left to report.
pub proof fn law_change_is_reported(
    before: &mut Watcher,
    tracker: &mut SelfWriteTracker,
    read: Result<Option<ClipboardSnapshot>, Error>,
    then: u128,
    action: WatchAction,
    waiting: &mut Watcher,
    now: u128,
    event: Option<ClipboardEvent>,
    after: &mut Watcher,
    later: u128,
    again: Option<ClipboardEvent>,
)
    requires
        call_ensures(Watcher::on_read, (before, tracker, read, then), action),
        *waiting == *final(before),
        call_ensures(Watcher::on_timer, (waiting, now), event),
        *after == *final(waiting),
        call_ensures(Watcher::on_timer, (after, later), again),
        read is Ok,
        read->Ok_0 is Some,
        old(tracker)@ != Some(read->Ok_0->Some_0.sha256@),
        old(before)@.manager.last_seen != Some(read->Ok_0->Some_0.sha256@),
    ensures
        action is ArmTimer,
        event is Some <==> now >= then + 300_000_000,
        event is Some ==> event->Some_0 is Changed && event->Some_0@ == EventView::Changed(
            read->Ok_0->Some_0@,
        ),
        event is Some ==> again is None,
        event is None && now < then + 300_000_000 && later >= then + 300_000_000 ==> again is Some,
{
}

/// A watch that cannot read says why, and forgets nothing.
pub proof fn law_failed_read_is_reported(
    w: &mut Watcher,
    tracker: &mut SelfWriteTracker,
    read: Result<Option<ClipboardSnapshot>, Error>,
    now: u128,
    action: WatchAction,
    text: String,
)
    requires
        call_ensures(Watcher::on_read, (w, tracker, read, now), action),
        read is Err,
        call_ensures(Error::to_string, (&read->Err_0,), text),
    ensures
        action is Report,
        action->Report_0@ == EventView::BackendLost(text@),
        final(w)@ == old(w)@,
        final(tracker)@ == old(tracker)@,
{
}

/// A read that is no change starts no timer and leaves what waits as it is.
pub proof fn law_no_change_no_timer(
    w: &mut Watcher,
    tracker: &mut SelfWriteTracker,
    read: Result<Option<ClipboardSnapshot>, Error>,
    now: u128,
    action: WatchAction,
)
    requires
        call_ensures(Watcher::on_read, (w, tracker, read, now), action),
        read is Ok,
        read->Ok_0 is None || old(tracker)@ == Some(read->Ok_0->Some_0.sha256@)
            || old(w)@.manager.last_seen == Some(read->Ok_0->Some_0.sha256@),
    ensures
        action is Wait,
        final(w)@.emitter == old(w)@.emitter,
{
}

/// A watch asks for plain text, then PNG, then JPEG, then markup; it is told of changes by
/// `wl-paste --watch cat` under Wayland where `wl-paste` is there, and ends when that
/// program falls silent for good.
pub proof fn law_how_to_watch(
    types: Vec<String>,
    command: ToolCommand,
    backend: BackendKind,
    tools: ClipboardTools,
    driven: bool,
    event: PipeEvent,
    failure: Option<Error>,
)
    requires
        call_ensures(watched_mimes, (), types),
        call_ensures(watch_command, (), command),
        call_ensures(is_event_driven, (backend, &tools), driven),
        call_ensures(pipe_failure, (&event,), failure),
    ensures
        text::views(types@) == seq![
            "text/plain;charset=utf-8"@,
            "image/png"@,
            "image/jpeg"@,
            "text/html"@,
        ],
        command.program@ == "wl-paste"@,
        text::views(command.args@) == seq!["--watch"@, "cat"@],
        driven <==> backend == BackendKind::Wayland && tools.wl_paste,
        failure is None <==> (event matches PipeEvent::Data(n) && n > 0),
{
}

/// What was put in last comes out once 300 milliseconds have gone by, not sooner, and once.
pub proof fn law_settling(
    d: &mut Debouncer,
    snap: ClipboardSnapshot,
    now: u128,
    fed: (),
    e: &mut Debouncer,
    later: u128,
    r: Option<ClipboardSnapshot>,
    waiting: &Debouncer,
    pending: bool,
)
    requires
        call_ensures(Debouncer::feed_at, (d, snap, now), fed),
        *old(e) == *final(d),
        call_ensures(Debouncer::fire_at, (e, later), r),
        *waiting == *final(e),
        call_ensures(Debouncer::has_pending, (waiting,), pending),
    ensures
        r is Some <==> later >= now + 300_000_000,
        r is Some ==> r->Some_0@ == snap@,
        pending <==> r is None,
{
}

/// The emitter does as well, and waits for its time from what came in until it comes out.
pub proof fn law_emitting(
    d: &mut DebounceEmitter,
    snap: ClipboardSnapshot,
    now: u128,
    fed: (),
    e: &mut DebounceEmitter,
    later: u128,
    r: Option<ClipboardSnapshot>,
    waiting: &DebounceEmitter,
    ready: bool,
)
    requires
        call_ensures(DebounceEmitter::feed, (d, snap, now), fed),
        *old(e) == *final(d),
        call_ensures(DebounceEmitter::try_fire, (e, later), r),
        *waiting == *final(e),
        call_ensures(DebounceEmitter::is_ready, (waiting,), ready),
    ensures
        r is Some <==> later >= now + 300_000_000,
        r is Some ==> r->Some_0@ == snap@,
        ready <==> r is None,
{
}

} // verus!
