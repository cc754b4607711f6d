//! The local clipboard: what is read from it and written to it, and through which tool.
//!
//! The tools are run by the caller. A read or a write is a plan that names the next
//! command to run and takes in what came of it.

use vstd::prelude::*;
use vstd::utf8::{decode_utf8, encode_utf8, valid_utf8};

use crate::hashing;
use crate::encoding;
use crate::error::{Error, ErrorView};
use crate::text;

pub mod watch;
pub mod x11;

verus! {

/// The SHA-256 digest of `data` in hexadecimal.
pub fn sha256_hex(data: &[u8]) -> (r: String)
    ensures
        r@ == hashing::hash_of(data@),
        r@.len() == 64,
{
    hashing::hash_bytes(data)
}

pub const MIME_TEXT: &'static str = "text/plain;charset=utf-8";

pub const MIME_TEXT_PLAIN: &'static str = "text/plain";

pub const MIME_PNG: &'static str = "image/png";

pub const MIME_JPEG: &'static str = "image/jpeg";

pub const MIME_HTML: &'static str = "text/html";

/// Whether images of type `mime` are exchanged.
pub fn is_supported_image_mime(mime: &str) -> (r: bool)
    ensures
        r == (mime@ == MIME_PNG@ || mime@ == MIME_JPEG@),
{
    text::same(mime, MIME_PNG) || text::same(mime, MIME_JPEG)
}

/// Whether `mime` is a text type.
pub open spec fn is_text(mime: Seq<char>) -> bool {
    text::has_prefix(mime, "text/"@)
}

/// Formatted text that goes with a snapshot.
#[derive(Debug)]
pub struct RichText {
    pub html: String,
    pub sha256: String,
}

/// The contents of a `RichText`.
pub struct RichView {
    pub html: Seq<char>,
    pub sha256: Seq<char>,
}

impl View for RichText {
    type V = RichView;

    open spec fn view(&self) -> RichView {
        RichView { html: self.html@, sha256: self.sha256@ }
    }
}

impl Clone for RichText {
    fn clone(&self) -> (r: Self)
        ensures
            r == *self,
    {
        RichText { html: self.html.clone(), sha256: self.sha256.clone() }
    }
}

/// What the clipboard holds at one moment.
#[derive(Debug)]
pub struct ClipboardSnapshot {
    pub mime: String,
    pub bytes: Vec<u8>,
    pub sha256: String,
    pub rich: Option<RichText>,
}

/// The contents of a `ClipboardSnapshot`.
pub struct SnapshotView {
    pub mime: Seq<char>,
    pub bytes: Seq<u8>,
    pub sha256: Seq<char>,
    pub rich: Option<RichView>,
}

impl View for ClipboardSnapshot {
    type V = SnapshotView;

    open spec fn view(&self) -> SnapshotView {
        SnapshotView {
            mime: self.mime@,
            bytes: self.bytes@,
            sha256: self.sha256@,
            rich: match self.rich {
                Some(rich) => Some(rich@),
                None => None,
            },
        }
    }
}

impl Clone for ClipboardSnapshot {
    fn clone(&self) -> (r: Self)
        ensures
            r@ == self@,
    {
        ClipboardSnapshot {
            mime: self.mime.clone(),
            bytes: vstd::slice::slice_to_vec(self.bytes.as_slice()),
            sha256: self.sha256.clone(),
            rich: match &self.rich {
                Some(rich) => Some(rich.clone()),
                None => None,
            },
        }
    }
}

/// Plain content of type `mime`, with its own digest.
pub open spec fn snapshot_of(mime: Seq<char>, bytes: Seq<u8>) -> SnapshotView {
    SnapshotView { mime, bytes, sha256: hashing::hash_of(bytes), rich: None }
}

impl SnapshotView {
    /// The content as text.
    pub open spec fn text(self) -> Option<Seq<char>> {
        if is_text(self.mime) && valid_utf8(self.bytes) {
            Some(decode_utf8(self.bytes))
        } else {
            None
        }
    }

    /// The snapshot with formatted text.
    pub open spec fn with_rich(self, html: Seq<char>, sha256: Seq<char>) -> SnapshotView {
        SnapshotView { rich: Some(RichView { html, sha256 }), ..self }
    }
}

impl ClipboardSnapshot {
    /// Plain text.
    pub fn new_text(mime: &str, bytes: Vec<u8>, sha256: String) -> (r: Self)
        ensures
            r@ == (SnapshotView { mime: mime@, bytes: bytes@, sha256: sha256@, rich: None }),
    {
        ClipboardSnapshot { mime: mime.to_owned(), bytes, sha256, rich: None }
    }

    /// An image.
    pub fn new_image(mime: &str, bytes: Vec<u8>, sha256: String) -> (r: Self)
        ensures
            r@ == (SnapshotView { mime: mime@, bytes: bytes@, sha256: sha256@, rich: None }),
    {
        ClipboardSnapshot { mime: mime.to_owned(), bytes, sha256, rich: None }
    }

    /// Formatted text. The bytes are the plain alternative, or the markup itself where
    /// there is none; `sha256` is the digest of the markup.
    pub fn new_html(html: String, alt: Option<String>, sha256: String) -> (r: Self)
        ensures
            r@ == (SnapshotView {
                mime: MIME_HTML@,
                bytes: encode_utf8(
                    match alt {
                        Some(a) => a@,
                        None => html@,
                    },
                ),
                sha256: sha256@,
                rich: Some(RichView { html: html@, sha256: sha256@ }),
            }),
    {
        let bytes = match alt {
            Some(a) => encoding::text_bytes(a.as_str()),
            None => encoding::text_bytes(html.as_str()),
        };
        ClipboardSnapshot {
            mime: MIME_HTML.to_owned(),
            bytes,
            sha256: sha256.clone(),
            rich: Some(RichText { html, sha256 }),
        }
    }

    /// The content as text, where its type is a text type and it is valid UTF-8.
    pub fn text(&self) -> (r: Option<&str>)
        ensures
            r is Some == self@.text() is Some,
            r matches Some(s) ==> self@.text() == Some(s@),
    {
        if text::starts_with(self.mime.as_str(), "text/") {
            match encoding::utf8_text(self.bytes.as_slice()) {
                Ok(s) => Some(s),
                Err(_) => None,
            }
        } else {
            None
        }
    }

    /// The markup, where there is some.
    pub fn html(&self) -> (r: Option<&str>)
        ensures
            r is Some == self@.rich is Some,
            r matches Some(s) ==> s@ == self@.rich->Some_0.html,
    {
        match &self.rich {
            Some(rich) => Some(rich.html.as_str()),
            None => None,
        }
    }

    pub fn is_image(&self) -> (r: bool)
        ensures
            r == text::has_prefix(self@.mime, "image/"@),
    {
        text::starts_with(self.mime.as_str(), "image/")
    }

    pub fn size(&self) -> (r: usize)
        ensures
            r == self@.bytes.len(),
    {
        self.bytes.len()
    }
}

/// Who caused a write: a peer, or this device.
#[derive(Debug, Clone, Copy, PartialEq, Eq, Structural)]
pub enum WriteOrigin {
    Remote,
    Local,
}

/// What a watch of the clipboard reports.
#[derive(Debug)]
pub enum ClipboardEvent {
    Changed(Box<ClipboardSnapshot>),
    BackendLost(String),
}

/// The contents of a `ClipboardEvent`.
pub enum EventView {
    Changed(SnapshotView),
    BackendLost(Seq<char>),
}

impl View for ClipboardEvent {
    type V = EventView;

    open spec fn view(&self) -> EventView {
        match *self {
            ClipboardEvent::Changed(s) => EventView::Changed((*s)@),
            ClipboardEvent::BackendLost(e) => EventView::BackendLost(e@),
        }
    }
}

/// Through which display system the clipboard is reached.
#[derive(Debug, Clone, Copy, PartialEq, Eq, Structural)]
pub enum BackendKind {
    Wayland,
    X11,
    /// None: nothing is read, and writes go nowhere.
    Headless,
}

impl BackendKind {
    pub fn name(self) -> (r: &'static str)
        ensures
            r@ == match self {
                BackendKind::Wayland => "wayland"@,
                BackendKind::X11 => "x11"@,
                BackendKind::Headless => "headless"@,
            },
    {
        match self {
            BackendKind::Wayland => "wayland",
            BackendKind::X11 => "x11",
            BackendKind::Headless => "headless",
        }
    }
}

/// Which clipboard tools are installed.
#[derive(Debug, Clone, Copy, PartialEq, Eq, Structural)]
pub struct ClipboardTools {
    pub wl_copy: bool,
    pub wl_paste: bool,
    pub xclip: bool,
}

impl Default for ClipboardTools {
    fn default() -> (r: Self)
        ensures
            r == (ClipboardTools { wl_copy: false, wl_paste: false, xclip: false }),
    {
        ClipboardTools { wl_copy: false, wl_paste: false, xclip: false }
    }
}

impl ClipboardTools {
    pub fn has_wayland(&self) -> (r: bool)
        ensures
            r == (self.wl_copy && self.wl_paste),
    {
        self.wl_copy && self.wl_paste
    }

    pub fn has_x11(&self) -> (r: bool)
        ensures
            r == self.xclip,
    {
        self.xclip
    }
}

/// The digest of the last content that a peer's message put on the clipboard.
#[derive(Debug)]
pub struct SelfWriteTracker {
    last: Option<String>,
}

impl View for SelfWriteTracker {
    type V = Option<Seq<char>>;

    closed spec fn view(&self) -> Option<Seq<char>> {
        match self.last {
            Some(s) => Some(s@),
            None => None,
        }
    }
}

impl SelfWriteTracker {
    pub fn new() -> (r: Self)
        ensures
            r@ == None::<Seq<char>>,
    {
        SelfWriteTracker { last: None }
    }

    pub fn set(&mut self, sha256: String)
        ensures
            final(self)@ == Some(sha256@),
    {
        self.last = Some(sha256);
    }

    pub fn clear(&mut self)
        ensures
            final(self)@ == None::<Seq<char>>,
    {
        self.last = None;
    }

    pub fn matches(&self, sha256: &str) -> (r: bool)
        ensures
            r == (self@ == Some(sha256@)),
    {
        match &self.last {
            Some(s) => text::same(s.as_str(), sha256),
            None => false,
        }
    }
}

/// A program to run, with its arguments.
#[derive(Debug)]
pub struct ToolCommand {
    pub program: String,
    pub args: Vec<String>,
}

/// The contents of a `ToolCommand`.
pub struct CommandView {
    pub program: Seq<char>,
    pub args: Seq<Seq<char>>,
}

impl View for ToolCommand {
    type V = CommandView;

    open spec fn view(&self) -> CommandView {
        CommandView { program: self.program@, args: text::views(self.args@) }
    }
}

/// At which point running a tool failed.
#[derive(Debug, Clone, Copy, PartialEq, Eq, Structural)]
pub enum ToolPhase {
    Start,
    Read,
    Wait,
}

/// What came of a command that reads.
#[derive(Debug)]
pub enum ToolOutcome {
    Finished { success: bool, stdout: Vec<u8> },
    Failed { phase: ToolPhase, reason: String },
}

/// The contents of a `ToolOutcome`.
pub enum OutcomeView {
    Finished { success: bool, stdout: Seq<u8> },
    Failed { phase: ToolPhase, reason: Seq<char> },
}

impl View for ToolOutcome {
    type V = OutcomeView;

    open spec fn view(&self) -> OutcomeView {
        match *self {
            ToolOutcome::Finished { success, stdout } => OutcomeView::Finished {
                success,
                stdout: stdout@,
            },
            ToolOutcome::Failed { phase, reason } => OutcomeView::Failed { phase, reason: reason@ },
        }
    }
}

/// Where a read stands.
#[derive(Debug)]
pub enum ReadStage {
    /// The preferred type at that place is being asked for.
    Trying(usize),
    /// Plain text was read; its formatted form is being asked for.
    Html(ClipboardSnapshot),
    /// The list of offered types is being asked for.
    Targets,
    /// The preferred type at that place is offered and being fetched.
    Fetching(usize),
}

/// The contents of a `ReadStage`.
pub enum StageView {
    Trying(nat),
    Html(SnapshotView),
    Targets,
    Fetching(nat),
}

/// A read in progress: the preferred types, best first, and where it stands.
#[derive(Debug)]
pub struct ReadPlan {
    pub mimes: Vec<String>,
    pub stage: ReadStage,
}

/// The contents of a `ReadPlan`.
pub struct PlanView {
    pub mimes: Seq<Seq<char>>,
    pub stage: StageView,
}

impl View for ReadPlan {
    type V = PlanView;

    open spec fn view(&self) -> PlanView {
        PlanView {
            mimes: text::views(self.mimes@),
            stage: match self.stage {
                ReadStage::Trying(i) => StageView::Trying(i as nat),
                ReadStage::Html(s) => StageView::Html(s@),
                ReadStage::Targets => StageView::Targets,
                ReadStage::Fetching(i) => StageView::Fetching(i as nat),
            },
        }
    }
}

/// What a read does next.
#[derive(Debug)]
pub enum ReadStep {
    /// Run the command and hand what came of it to the plan.
    Run(ReadPlan, ToolCommand),
    /// The read is over, with what the clipboard holds.
    Done(Option<ClipboardSnapshot>),
    Failed(Error),
}

/// The contents of a `ReadStep`.
pub enum StepView {
    Run(PlanView, CommandView),
    Done(Option<SnapshotView>),
    Failed(ErrorView),
}

impl View for ReadStep {
    type V = StepView;

    open spec fn view(&self) -> StepView {
        match *self {
            ReadStep::Run(plan, command) => StepView::Run(plan@, command@),
            ReadStep::Done(None) => StepView::Done(None),
            ReadStep::Done(Some(s)) => StepView::Done(Some(s@)),
            ReadStep::Failed(e) => StepView::Failed(e@),
        }
    }
}

/// The command that reads type `mime` under Wayland.
pub open spec fn paste_command(mime: Seq<char>) -> CommandView {
    CommandView { program: "wl-paste"@, args: seq!["--no-newline"@, "--type"@, mime] }
}

fn paste(mime: &str) -> (r: ToolCommand)
    ensures
        r@ == paste_command(mime@),
{
    let args: Vec<String> = vec!["--no-newline".to_owned(), "--type".to_owned(), mime.to_owned()];
    let r = ToolCommand { program: "wl-paste".to_owned(), args };
    assert(r@.args =~= paste_command(mime@).args);
    r
}

/// The read under Wayland from the preferred type at `i` on.
pub open spec fn trying(mimes: Seq<Seq<char>>, i: nat) -> StepView {
    if i < mimes.len() {
        StepView::Run(
            PlanView { mimes, stage: StageView::Trying(i) },
            paste_command(mimes[i as int]),
        )
    } else {
        StepView::Done(None)
    }
}

/// How a read begins.
pub open spec fn read_begun(backend: BackendKind, mimes: Seq<Seq<char>>) -> StepView {
    match backend {
        BackendKind::Wayland => trying(mimes, 0),
        BackendKind::X11 => StepView::Run(
            PlanView { mimes, stage: StageView::Targets },
            x11::fetch_command("TARGETS"@),
        ),
        BackendKind::Headless => StepView::Done(None),
    }
}

/// Whether a command gave content.
pub open spec fn useful(outcome: OutcomeView) -> bool {
    outcome matches OutcomeView::Finished { success, stdout } && success && stdout.len() > 0
}

/// What a read does with plain content under Wayland: markup is its own formatted form,
/// other text may have one.
pub open spec fn pasted(mimes: Seq<Seq<char>>, mime: Seq<char>, bytes: Seq<u8>) -> StepView {
    let snap = snapshot_of(mime, bytes);
    if mime == MIME_HTML@ {
        StepView::Done(Some(snap.with_rich(encoding::lossy_text(bytes), snap.sha256)))
    } else if is_text(mime) {
        StepView::Run(PlanView { mimes, stage: StageView::Html(snap) }, paste_command(MIME_HTML@))
    } else {
        StepView::Done(Some(snap))
    }
}

/// How a read goes on after `outcome`.
pub open spec fn read_continued(plan: PlanView, outcome: OutcomeView) -> StepView {
    match plan.stage {
        StageView::Trying(i) => match outcome {
            OutcomeView::Failed { phase, reason } => StepView::Failed(ErrorView::Clipboard(reason)),
            OutcomeView::Finished { success, stdout } => if success && stdout.len() > 0 {
                pasted(plan.mimes, plan.mimes[i as int], stdout)
            } else {
                trying(plan.mimes, i + 1)
            },
        },
        StageView::Html(snap) => match outcome {
            OutcomeView::Finished { success, stdout } if success && stdout.len() > 0 => {
                let html = encoding::lossy_text(stdout);
                StepView::Done(Some(snap.with_rich(html, hashing::hash_of(encode_utf8(html)))))
            },
            _ => StepView::Done(Some(snap)),
        },
        StageView::Targets => x11::after_targets(plan.mimes, outcome),
        StageView::Fetching(i) => x11::after_fetch(plan.mimes[i as int], outcome),
    }
}

fn try_mime(mimes: Vec<String>, i: usize) -> (r: ReadStep)
    ensures
        r@ == trying(text::views(mimes@), i as nat),
{
    if i < mimes.len() {
        let command = paste(mimes[i].as_str());
        assert(text::views(mimes@)[i as int] == mimes@[i as int]@);
        ReadStep::Run(ReadPlan { mimes, stage: ReadStage::Trying(i) }, command)
    } else {
        ReadStep::Done(None)
    }
}

impl ReadPlan {
    /// Whether the plan's place is one of its preferred types.
    pub open spec fn wf(&self) -> bool {
        match self.stage {
            ReadStage::Trying(i) => i < self.mimes@.len(),
            ReadStage::Fetching(i) => i < self.mimes@.len(),
            _ => true,
        }
    }

    /// Goes on with the read after its command came to `outcome`.
    pub fn resume(self, outcome: ToolOutcome) -> (r: ReadStep)
        requires
            self.wf(),
        ensures
            r@ == read_continued(self@, outcome@),
            r matches ReadStep::Run(plan, _) ==> plan.wf(),
    {
        let mimes = self.mimes;
        let ghost m = text::views(mimes@);
        match self.stage {
            ReadStage::Trying(i) => match outcome {
                ToolOutcome::Failed { phase: _, reason } => ReadStep::Failed(
                    Error::Clipboard(reason),
                ),
                ToolOutcome::Finished { success, stdout } => {
                    if !success || stdout.len() == 0 {
                        assert(i < mimes.len());
                        return try_mime(mimes, i + 1);
                    }
                    assert(m[i as int] == mimes@[i as int]@);
                    let mime = mimes[i].clone();
                    let mut snap = ClipboardManager::snapshot(mime.as_str(), stdout);
                    if text::same(mime.as_str(), MIME_HTML) {
                        let html = encoding::utf8_lossy(snap.bytes.as_slice());
                        snap.rich = Some(RichText { html, sha256: snap.sha256.clone() });
                        return ReadStep::Done(Some(snap));
                    }
                    if !text::starts_with(mime.as_str(), "text/") {
                        return ReadStep::Done(Some(snap));
                    }
                    ReadStep::Run(
                        ReadPlan { mimes, stage: ReadStage::Html(snap) },
                        paste(MIME_HTML),
                    )
                },
            },
            ReadStage::Html(snap) => match outcome {
                ToolOutcome::Failed { phase: _, reason: _ } => ReadStep::Done(Some(snap)),
                ToolOutcome::Finished { success, stdout } => {
                    if !success || stdout.len() == 0 {
                        return ReadStep::Done(Some(snap));
                    }
                    let html = encoding::utf8_lossy(stdout.as_slice());
                    let sha256 = sha256_hex(html.as_str().as_bytes());
                    let mut snap = snap;
                    snap.rich = Some(RichText { html, sha256 });
                    ReadStep::Done(Some(snap))
                },
            },
            ReadStage::Targets => x11::choose_target(mimes, outcome),
            ReadStage::Fetching(i) => {
                assert(m[i as int] == mimes@[i as int]@);
                x11::take_fetched(mimes[i].as_str(), outcome)
            },
        }
    }
}

/// The read after all of `outcomes` came, in order.
pub open spec fn read_after(step: StepView, outcomes: Seq<OutcomeView>) -> StepView
    decreases outcomes.len(),
{
    if outcomes.len() == 0 {
        step
    } else {
        match read_after(step, outcomes.drop_last()) {
            StepView::Run(plan, _) => read_continued(plan, outcomes.last()),
            s => s,
        }
    }
}

/// Under Wayland the preferred types are asked for in order, and the first that has
/// content is read: here the one at `k`, after those before it had none.
pub proof fn law_first_preferred_type_wins(
    mimes: Seq<Seq<char>>,
    outcomes: Seq<OutcomeView>,
    k: nat,
)
    requires
        k < mimes.len(),
        outcomes.len() == k + 1,
        forall|i: int|
            0 <= i < k ==> #[trigger] outcomes[i] is Finished && !useful(outcomes[i]),
        useful(outcomes[k as int]),
    ensures
        read_after(read_begun(BackendKind::Wayland, mimes), outcomes) == pasted(
            mimes,
            mimes[k as int],
            outcomes[k as int]->stdout,
        ),
{
    lemma_trying(mimes, outcomes.drop_last(), k);
}

proof fn lemma_trying(mimes: Seq<Seq<char>>, outcomes: Seq<OutcomeView>, k: nat)
    requires
        k < mimes.len(),
        outcomes.len() == k,
        forall|i: int|
            0 <= i < k ==> #[trigger] outcomes[i] is Finished && !useful(outcomes[i]),
    ensures
        read_after(read_begun(BackendKind::Wayland, mimes), outcomes) == trying(mimes, k),
    decreases k,
{
    if k > 0 {
        lemma_trying(mimes, outcomes.drop_last(), (k - 1) as nat);
    }
}

/// The clipboard of this device: how it is reached, and the digest of what was last
/// seen on it.
#[derive(Debug)]
pub struct ClipboardManager {
    backend: BackendKind,
    last_seen: Option<String>,
}

/// The contents of a `ClipboardManager`.
pub struct ManagerView {
    pub backend: BackendKind,
    pub last_seen: Option<Seq<char>>,
}

impl View for ClipboardManager {
    type V = ManagerView;

    closed spec fn view(&self) -> ManagerView {
        ManagerView {
            backend: self.backend,
            last_seen: match self.last_seen {
                Some(s) => Some(s@),
                None => None,
            },
        }
    }
}

/// The message for a missing Wayland tool.
pub const NO_WAYLAND_TOOLS: &'static str =
    "wl-copy/wl-paste não encontrados. Instale com: sudo pacman -S wl-clipboard";

/// The message for a missing X11 tool.
pub const NO_X11_TOOLS: &'static str = "xclip não encontrado. Instale com: sudo pacman -S xclip";

/// How a write was planned: the command that takes the bytes, if there is one.
#[derive(Debug)]
pub struct PendingWrite {
    command: Option<ToolCommand>,
    data: Vec<u8>,
    origin: WriteOrigin,
}

/// The contents of a `PendingWrite`.
pub struct WriteView {
    pub command: Option<CommandView>,
    pub data: Seq<u8>,
    pub origin: WriteOrigin,
}

impl View for PendingWrite {
    type V = WriteView;

    closed spec fn view(&self) -> WriteView {
        WriteView {
            command: match self.command {
                Some(c) => Some(c@),
                None => None,
            },
            data: self.data@,
            origin: self.origin,
        }
    }
}

/// What came of a command that writes.
#[derive(Debug)]
pub enum WriteOutcome {
    SpawnFailed(String),
    StdinFailed(String),
    WaitFailed(String),
    Exited { success: bool, stderr: Vec<u8> },
}

/// The command that writes type `mime` under Wayland.
pub open spec fn copy_command(mime: Seq<char>) -> CommandView {
    CommandView { program: "wl-copy"@, args: seq!["--type"@, mime] }
}

/// How a write begins: the command, or why there is none to run.
pub open spec fn write_begun(
    backend: BackendKind,
    mime: Seq<char>,
    bytes: Seq<u8>,
    origin: WriteOrigin,
) -> Result<WriteView, ErrorView> {
    match backend {
        BackendKind::Wayland => Ok(
            WriteView { command: Some(copy_command(mime)), data: bytes, origin },
        ),
        BackendKind::X11 => match x11::store_refusal(mime, bytes.len()) {
            Some(e) => Err(e),
            None => Ok(
                WriteView { command: Some(x11::store_command(mime)), data: bytes, origin },
            ),
        },
        BackendKind::Headless => Ok(WriteView { command: None, data: bytes, origin }),
    }
}

/// The error that a write's outcome stands for, if any.
pub open spec fn write_failure(tool: Seq<char>, outcome: WriteOutcome) -> Option<Seq<char>> {
    match outcome {
        WriteOutcome::SpawnFailed(e) => Some("falha spawn "@ + tool + ": "@ + e@),
        WriteOutcome::StdinFailed(e) => Some("falha escrevendo stdin: "@ + e@),
        WriteOutcome::WaitFailed(e) => Some("falha wait "@ + tool + ": "@ + e@),
        WriteOutcome::Exited { success, stderr } => if success {
            None
        } else {
            Some(tool + " falhou: "@ + text::trim_of(encoding::lossy_text(stderr@)))
        },
    }
}

impl PendingWrite {
    /// The command to run, with `data` as its input; none where there is no display.
    pub fn command(&self) -> (r: Option<&ToolCommand>)
        ensures
            r is Some == self@.command is Some,
            r matches Some(c) ==> self@.command == Some(c@),
    {
        self.command.as_ref()
    }

    /// The bytes to write.
    pub fn data(&self) -> (r: &[u8])
        ensures
            r@ == self@.data,
    {
        self.data.as_slice()
    }

    /// Ends the write. `outcome` is what came of the command and counts only where
    /// there was one. A write for a peer that succeeds is remembered in `tracker`, so
    /// that seeing it on the clipboard is not taken for a change.
    pub fn complete(self, outcome: &WriteOutcome, tracker: &mut SelfWriteTracker) -> (r: Result<
        (),
        Error,
    >)
        ensures
            match r {
                Err(e) => self@.command is Some && write_failure(
                    self@.command->Some_0.program,
                    *outcome,
                ) is Some && e@ == ErrorView::Clipboard(
                    write_failure(self@.command->Some_0.program, *outcome)->Some_0,
                ),
                Ok(()) => self@.command is None || write_failure(
                    self@.command->Some_0.program,
                    *outcome,
                ) is None,
            },
            final(tracker)@ == if r is Ok && self@.origin == WriteOrigin::Remote {
                Some(hashing::hash_of(self@.data))
            } else {
                old(tracker)@
            },
    {
        match &self.command {
            None => {},
            Some(command) => {
                let tool = command.program.as_str();
                match outcome {
                    WriteOutcome::SpawnFailed(e) => {
                        let mut m = text::join("falha spawn ", tool);
                        m.append(": ");
                        m.append(e.as_str());
                        return Err(Error::Clipboard(m));
                    },
                    WriteOutcome::StdinFailed(e) => {
                        return Err(
                            Error::Clipboard(text::join("falha escrevendo stdin: ", e.as_str())),
                        );
                    },
                    WriteOutcome::WaitFailed(e) => {
                        let mut m = text::join("falha wait ", tool);
                        m.append(": ");
                        m.append(e.as_str());
                        return Err(Error::Clipboard(m));
                    },
                    WriteOutcome::Exited { success, stderr } => {
                        if !*success {
                            let mut m = text::join(tool, " falhou: ");
                            let reason = encoding::utf8_lossy(stderr.as_slice());
                            m.append(text::trim(reason.as_str()).as_str());
                            return Err(Error::Clipboard(m));
                        }
                    },
                }
            },
        }
        if self.origin == WriteOrigin::Remote {
            tracker.set(sha256_hex(self.data.as_slice()));
        }
        Ok(())
    }
}

/// The backend for the display variables that are set: Wayland's first, then X11's.
pub open spec fn backend_for(wayland_display: bool, display: bool) -> BackendKind {
    if wayland_display {
        BackendKind::Wayland
    } else if display {
        BackendKind::X11
    } else {
        BackendKind::Headless
    }
}

/// The backend that is preferred, where its display is there; any other word leaves the
/// choice to the display variables.
pub open spec fn preferred_backend(
    preference: Seq<char>,
    wayland_display: bool,
    display: bool,
) -> BackendKind {
    if preference == "x11"@ && display {
        BackendKind::X11
    } else {
        backend_for(wayland_display, display)
    }
}

impl ClipboardManager {
    /// A manager with the preferred backend, `wayland`, `x11` or `auto`, where its
    /// display is there.
    pub fn preferring(preference: &str, wayland_display: bool, display: bool) -> (r: Self)
        ensures
            r@ == (ManagerView {
                backend: preferred_backend(preference@, wayland_display, display),
                last_seen: None,
            }),
    {
        if display && text::same(preference, "x11") {
            ClipboardManager { backend: BackendKind::X11, last_seen: None }
        } else {
            Self::new(wayland_display, display)
        }
    }

    /// A manager for the display variables that are set, `WAYLAND_DISPLAY` and `DISPLAY`.
    pub fn new(wayland_display: bool, display: bool) -> (r: Self)
        ensures
            r@ == (ManagerView {
                backend: backend_for(wayland_display, display),
                last_seen: None,
            }),
    {
        ClipboardManager {
            backend: Self::pick_backend(wayland_display, display),
            last_seen: None,
        }
    }

    /// A manager without a display.
    pub fn headless() -> (r: Self)
        ensures
            r@ == (ManagerView { backend: BackendKind::Headless, last_seen: None }),
    {
        ClipboardManager { backend: BackendKind::Headless, last_seen: None }
    }

    /// A second manager of the same clipboard that has seen nothing yet. The two share
    /// one `SelfWriteTracker`.
    pub fn share_self_write(&self) -> (r: Self)
        ensures
            r@ == (ManagerView { backend: self@.backend, last_seen: None }),
    {
        ClipboardManager { backend: self.backend, last_seen: None }
    }

    /// The backend for the display variables that are set.
    pub fn pick_backend(wayland_display: bool, display: bool) -> (r: BackendKind)
        ensures
            r == backend_for(wayland_display, display),
    {
        if wayland_display {
            return BackendKind::Wayland;
        }
        if display {
            return BackendKind::X11;
        }
        BackendKind::Headless
    }

    pub fn backend_kind(&self) -> (r: BackendKind)
        ensures
            r == self@.backend,
    {
        self.backend
    }

    /// Notes that content with digest `sha256` was seen.
    pub fn note_seen(&mut self, sha256: String)
        ensures
            final(self)@ == (ManagerView { last_seen: Some(sha256@), ..old(self)@ }),
    {
        self.last_seen = Some(sha256);
    }

    /// Notes that the clipboard was empty.
    pub fn forget_seen(&mut self)
        ensures
            final(self)@ == (ManagerView { last_seen: None, ..old(self)@ }),
    {
        self.last_seen = None;
    }

    /// Whether content with digest `sha256` was seen last.
    pub fn has_seen(&self, sha256: &str) -> (r: bool)
        ensures
            r == (self@.last_seen == Some(sha256@)),
    {
        match &self.last_seen {
            Some(s) => text::same(s.as_str(), sha256),
            None => false,
        }
    }

    /// Whether the tools that the backend needs are installed.
    pub fn check_tools(&self, tools: &ClipboardTools) -> (r: Result<(), Error>)
        ensures
            r is Ok == match self@.backend {
                BackendKind::Wayland => tools.wl_copy && tools.wl_paste,
                BackendKind::X11 => tools.xclip,
                BackendKind::Headless => true,
            },
            r matches Err(e) ==> e@ == ErrorView::Clipboard(
                if self@.backend == BackendKind::Wayland {
                    NO_WAYLAND_TOOLS@
                } else {
                    NO_X11_TOOLS@
                },
            ),
    {
        match self.backend {
            BackendKind::Wayland => if tools.has_wayland() {
                Ok(())
            } else {
                Err(Error::Clipboard(NO_WAYLAND_TOOLS.to_owned()))
            },
            BackendKind::X11 => if tools.has_x11() {
                Ok(())
            } else {
                Err(Error::Clipboard(NO_X11_TOOLS.to_owned()))
            },
            BackendKind::Headless => Ok(()),
        }
    }

    /// Begins a read of the clipboard: of the first of `preferred_mimes` that it holds.
    pub fn read(&self, preferred_mimes: Vec<String>) -> (r: ReadStep)
        ensures
            r@ == read_begun(self@.backend, text::views(preferred_mimes@)),
            r matches ReadStep::Run(plan, _) ==> plan.wf(),
    {
        match self.backend {
            BackendKind::Wayland => try_mime(preferred_mimes, 0),
            BackendKind::X11 => {
                let command = x11::fetch("TARGETS");
                ReadStep::Run(
                    ReadPlan { mimes: preferred_mimes, stage: ReadStage::Targets },
                    command,
                )
            },
            BackendKind::Headless => ReadStep::Done(None),
        }
    }

    /// Content of type `mime`, with its digest.
    pub fn snapshot(mime: &str, bytes: Vec<u8>) -> (r: ClipboardSnapshot)
        ensures
            r@ == snapshot_of(mime@, bytes@),
    {
        let sha256 = sha256_hex(bytes.as_slice());
        if text::starts_with(mime, "image/") {
            ClipboardSnapshot::new_image(mime, bytes, sha256)
        } else {
            ClipboardSnapshot::new_text(mime, bytes, sha256)
        }
    }

    /// Begins to write plain text.
    pub fn write_text(&self, content: &str, origin: WriteOrigin) -> (r: Result<PendingWrite, Error>)
        ensures
            match r {
                Ok(w) => write_begun(
                    self@.backend,
                    MIME_TEXT@,
                    encode_utf8(content@),
                    origin,
                ) == Ok::<WriteView, ErrorView>(w@),
                Err(e) => write_begun(self@.backend, MIME_TEXT@, encode_utf8(content@), origin)
                    == Err::<WriteView, ErrorView>(e@),
            },
    {
        self.write(MIME_TEXT, content.as_bytes(), origin)
    }

    /// Begins to write an image.
    pub fn write_image(&self, mime: &str, bytes: &[u8], origin: WriteOrigin) -> (r: Result<
        PendingWrite,
        Error,
    >)
        ensures
            ({
                let begun = if text::has_prefix(mime@, "image/"@) {
                    write_begun(self@.backend, mime@, bytes@, origin)
                } else {
                    Err(ErrorView::Protocol("mime de imagem inválido: "@ + mime@))
                };
                match r {
                    Ok(w) => begun == Ok::<WriteView, ErrorView>(w@),
                    Err(e) => begun == Err::<WriteView, ErrorView>(e@),
                }
            }),
    {
        if !text::starts_with(mime, "image/") {
            return Err(Error::Protocol(text::join("mime de imagem inválido: ", mime)));
        }
        self.write(mime, bytes, origin)
    }

    /// Begins to write formatted text.
    pub fn write_html(&self, html: &str, origin: WriteOrigin) -> (r: Result<PendingWrite, Error>)
        ensures
            match r {
                Ok(w) => write_begun(self@.backend, MIME_HTML@, encode_utf8(html@), origin) == Ok::<
                    WriteView,
                    ErrorView,
                >(w@),
                Err(e) => write_begun(self@.backend, MIME_HTML@, encode_utf8(html@), origin)
                    == Err::<WriteView, ErrorView>(e@),
            },
    {
        self.write(MIME_HTML, html.as_bytes(), origin)
    }

    fn write(&self, mime: &str, bytes: &[u8], origin: WriteOrigin) -> (r: Result<
        PendingWrite,
        Error,
    >)
        ensures
            match r {
                Ok(w) => write_begun(self@.backend, mime@, bytes@, origin) == Ok::<
                    WriteView,
                    ErrorView,
                >(w@),
                Err(e) => write_begun(self@.backend, mime@, bytes@, origin) == Err::<
                    WriteView,
                    ErrorView,
                >(e@),
            },
    {
        let data = vstd::slice::slice_to_vec(bytes);
        match self.backend {
            BackendKind::Wayland => {
                let args: Vec<String> = vec!["--type".to_owned(), mime.to_owned()];
                let command = ToolCommand { program: "wl-copy".to_owned(), args };
                assert(command@.args =~= copy_command(mime@).args);
                Ok(PendingWrite { command: Some(command), data, origin })
            },
            BackendKind::X11 => match x11::store(mime, bytes.len()) {
                Err(e) => Err(e),
                Ok(command) => Ok(PendingWrite { command: Some(command), data, origin }),
            },
            BackendKind::Headless => Ok(PendingWrite { command: None, data, origin }),
        }
    }
}

/// Whether `mime` begins with `image/`.
pub open spec fn names_image(mime: Seq<char>) -> bool {
    mime.len() >= 6 && mime.take(6) == seq!['i', 'm', 'a', 'g', 'e', '/']
}

/// Whether `mime` begins with `text/`.
pub open spec fn names_text(mime: Seq<char>) -> bool {
    mime.len() >= 5 && mime.take(5) == seq!['t', 'e', 'x', 't', '/']
}

pub(crate) proof fn lemma_names(mime: Seq<char>)
    ensures
        names_image(mime) <==> text::has_prefix(mime, "image/"@),
        names_text(mime) <==> is_text(mime),
        !(names_image(mime) && names_text(mime)),
{
    reveal_strlit("image/");
    reveal_strlit("text/");
    assert("image/"@ =~= seq!['i', 'm', 'a', 'g', 'e', '/']);
    assert("text/"@ =~= seq!['t', 'e', 'x', 't', '/']);
    if names_image(mime) {
        assert(mime[0] == mime.take(6)[0]);
    }
    if names_text(mime) {
        assert(mime[0] == mime.take(5)[0]);
    }
}

/// Under Wayland a write of any type names that very type, `wl-copy --type` and the type,
/// and hands on the content byte for byte: an image as the image it is, markup as
/// `text/html`, text as UTF-8.
pub proof fn law_wayland_writes_name_their_type(
    cm: &ClipboardManager,
    mime: &str,
    bytes: &[u8],
    content: &str,
    origin: WriteOrigin,
    image: Result<PendingWrite, Error>,
    markup: Result<PendingWrite, Error>,
    plain: Result<PendingWrite, Error>,
)
    requires
        call_ensures(ClipboardManager::write_image, (cm, mime, bytes, origin), image),
        call_ensures(ClipboardManager::write_html, (cm, content, origin), markup),
        call_ensures(ClipboardManager::write_text, (cm, content, origin), plain),
        cm@.backend == BackendKind::Wayland,
    ensures
        image is Ok <==> names_image(mime@),
        image is Ok ==> image->Ok_0@ == (WriteView {
            command: Some(
                CommandView { program: "wl-copy"@, args: seq!["--type"@, mime@] },
            ),
            data: bytes@,
            origin,
        }),
        markup is Ok && markup->Ok_0@ == (WriteView {
            command: Some(
                CommandView { program: "wl-copy"@, args: seq!["--type"@, "text/html"@] },
            ),
            data: encode_utf8(content@),
            origin,
        }),
        plain is Ok && plain->Ok_0@ == (WriteView {
            command: Some(
                CommandView {
                    program: "wl-copy"@,
                    args: seq!["--type"@, "text/plain;charset=utf-8"@],
                },
            ),
            data: encode_utf8(content@),
            origin,
        }),
{
    lemma_names(mime@);
}

/// Under X11 an image is written as its own type and text as `UTF8_STRING`, up to 25 MiB;
/// markup, and images other than PNG and JPEG, are not written.
pub proof fn law_x11_writes_name_their_type(
    cm: &ClipboardManager,
    mime: &str,
    bytes: &[u8],
    content: &str,
    origin: WriteOrigin,
    image: Result<PendingWrite, Error>,
    markup: Result<PendingWrite, Error>,
    plain: Result<PendingWrite, Error>,
)
    requires
        call_ensures(ClipboardManager::write_image, (cm, mime, bytes, origin), image),
        call_ensures(ClipboardManager::write_html, (cm, content, origin), markup),
        call_ensures(ClipboardManager::write_text, (cm, content, origin), plain),
        cm@.backend == BackendKind::X11,
    ensures
        image is Ok <==> (mime@ == "image/png"@ || mime@ == "image/jpeg"@) && bytes@.len()
            <= 26_214_400,
        image is Ok ==> image->Ok_0@ == (WriteView {
            command: Some(
                CommandView {
                    program: "xclip"@,
                    args: seq!["-selection"@, "clipboard"@, "-target"@, mime@, "-i"@],
                },
            ),
            data: bytes@,
            origin,
        }),
        markup is Err,
        plain is Ok <==> encode_utf8(content@).len() <= 26_214_400,
        plain is Ok ==> plain->Ok_0@ == (WriteView {
            command: Some(
                CommandView {
                    program: "xclip"@,
                    args: seq!["-selection"@, "clipboard"@, "-target"@, "UTF8_STRING"@, "-i"@],
                },
            ),
            data: encode_utf8(content@),
            origin,
        }),
{
    lemma_names(mime@);
    reveal_strlit("image/png");
    reveal_strlit("image/jpeg");
    reveal_strlit("text/html");
    reveal_strlit("text/plain");
    reveal_strlit("text/plain;charset=utf-8");
    assert("image/png"@.take(6) =~= seq!['i', 'm', 'a', 'g', 'e', '/']);
    assert("image/jpeg"@.take(6) =~= seq!['i', 'm', 'a', 'g', 'e', '/']);
    assert("text/plain"@[0] == 't' && "text/plain;charset=utf-8"@[0] == 't');
    assert("image/png"@[0] == 'i' && "image/jpeg"@[0] == 'i' && "text/html"@[0] == 't');
    assert("text/html"@.len() != "text/plain"@.len());
    assert("text/html"@.len() != "text/plain;charset=utf-8"@.len());
    if names_image(mime@) {
        assert(mime@[0] == mime@.take(6)[0]);
    }
}

/// Without a display nothing is run, and the content is kept for the record.
pub proof fn law_headless_writes_run_nothing(
    cm: &ClipboardManager,
    content: &str,
    origin: WriteOrigin,
    plain: Result<PendingWrite, Error>,
)
    requires
        call_ensures(ClipboardManager::write_text, (cm, content, origin), plain),
        cm@.backend == BackendKind::Headless,
    ensures
        plain is Ok,
        plain->Ok_0@ == (WriteView { command: None, data: encode_utf8(content@), origin }),
{
}

/// A write ends well exactly where there was nothing to run or its program succeeded. A
/// peer's content that was written is remembered by its digest; nothing else is.
pub proof fn law_write_ends(
    w: PendingWrite,
    outcome: WriteOutcome,
    tracker: &mut SelfWriteTracker,
    r: Result<(), Error>,
)
    requires
        call_ensures(PendingWrite::complete, (w, &outcome, tracker), r),
    ensures
        r is Ok <==> w@.command is None || (outcome matches WriteOutcome::Exited { success, stderr }
            && success),
        r is Err ==> r->Err_0 is Clipboard && final(tracker)@ == old(tracker)@,
        r is Ok && w@.origin == WriteOrigin::Remote ==> final(tracker)@ == Some(
            encoding::hex_of(hashing::sha256(w@.data)),
        ),
        r is Ok && w@.origin == WriteOrigin::Local ==> final(tracker)@ == old(tracker)@,
{
}

/// Under Wayland the preferred types are asked for one by one, by `wl-paste --no-newline
/// --type` and the type; what is written under a type is read under that type.
pub proof fn law_wayland_read_asks(
    cm: &ClipboardManager,
    mimes: Vec<String>,
    r: ReadStep,
)
    requires
        call_ensures(ClipboardManager::read, (cm, mimes), r),
        cm@.backend == BackendKind::Wayland,
    ensures
        mimes@.len() == 0 ==> r is Done && r->Done_0 is None,
        mimes@.len() > 0 ==> r is Run && r->Run_0.stage is Trying && r->Run_0.stage->Trying_0 == 0
            && text::views(r->Run_0.mimes@) == text::views(mimes@) && r->Run_1@ == (CommandView {
            program: "wl-paste"@,
            args: seq!["--no-newline"@, "--type"@, mimes@[0]@],
        }),
{
    if mimes@.len() > 0 {
        assert(text::views(mimes@)[0] == mimes@[0]@);
    }
}

/// What a type's program gave is the content, byte for byte, under that type and its own
/// digest: an image at once; markup with itself as its markup; other text after its markup
/// was asked for too. Where the program gave nothing, the next type is asked for; where it
/// could not be run, the read fails.
pub proof fn law_wayland_read_goes_on(plan: ReadPlan, outcome: ToolOutcome, i: usize, r: ReadStep)
    requires
        call_ensures(ReadPlan::resume, (plan, outcome), r),
        plan.stage == ReadStage::Trying(i),
        i < plan.mimes@.len(),
    ensures
        outcome is Failed ==> r is Failed && r->Failed_0@ == ErrorView::Clipboard(outcome->reason@),
        outcome is Finished && !(outcome->success && outcome->stdout@.len() > 0) ==> {
            &&& i + 1 < plan.mimes@.len() ==> r is Run && r->Run_0.stage is Trying
                && r->Run_0.stage->Trying_0 == i + 1 && text::views(r->Run_0.mimes@)
                == text::views(plan.mimes@) && r->Run_1@ == (CommandView {
                program: "wl-paste"@,
                args: seq!["--no-newline"@, "--type"@, plan.mimes@[i + 1]@],
            })
            &&& i + 1 == plan.mimes@.len() ==> r is Done && r->Done_0 is None
        },
        outcome is Finished && outcome->success && outcome->stdout@.len() > 0 ==> {
            let mime = plan.mimes@[i as int]@;
            let bytes = outcome->stdout@;
            let digest = encoding::hex_of(hashing::sha256(bytes));
            &&& !names_text(mime) ==> r is Done && r->Done_0 is Some && r->Done_0->Some_0@ == (
            SnapshotView { mime, bytes, sha256: digest, rich: None })
            &&& mime == "text/html"@ ==> r is Done && r->Done_0 is Some && r->Done_0->Some_0@ == (
            SnapshotView {
                mime,
                bytes,
                sha256: digest,
                rich: Some(RichView { html: encoding::lossy_text(bytes), sha256: digest }),
            })
            &&& names_text(mime) && mime != "text/html"@ ==> r is Run && r->Run_0.stage is Html
                && r->Run_0.stage->Html_0@ == (SnapshotView {
                mime,
                bytes,
                sha256: digest,
                rich: None,
            }) && r->Run_1@ == (CommandView {
                program: "wl-paste"@,
                args: seq!["--no-newline"@, "--type"@, "text/html"@],
            })
        },
{
    let mime = plan.mimes@[i as int]@;
    assert(text::views(plan.mimes@)[i as int] == mime);
    if i + 1 < plan.mimes@.len() {
        assert(text::views(plan.mimes@)[i + 1] == plan.mimes@[i + 1]@);
    }
    lemma_names(mime);
    reveal_strlit("text/html");
    assert("text/html"@.take(5) =~= seq!['t', 'e', 'x', 't', '/']);
}

/// Plain text ends up with its markup, where there was some, and without where there was
/// none; the text itself is what was read.
pub proof fn law_markup_is_attached(
    plan: ReadPlan,
    outcome: ToolOutcome,
    snap: ClipboardSnapshot,
    r: ReadStep,
)
    requires
        call_ensures(ReadPlan::resume, (plan, outcome), r),
        plan.stage == ReadStage::Html(snap),
    ensures
        r is Done && r->Done_0 is Some,
        r->Done_0->Some_0@.mime == snap.mime@,
        r->Done_0->Some_0@.bytes == snap.bytes@,
        r->Done_0->Some_0@.sha256 == snap.sha256@,
        outcome is Finished && outcome->success && outcome->stdout@.len() > 0
            ==> r->Done_0->Some_0@.rich is Some && r->Done_0->Some_0@.rich->Some_0.html
            == encoding::lossy_text(outcome->stdout@) && r->Done_0->Some_0@.rich->Some_0.sha256
            == encoding::hex_of(
            hashing::sha256(encode_utf8(encoding::lossy_text(outcome->stdout@))),
        ),
        !(outcome is Finished && outcome->success && outcome->stdout@.len() > 0)
            ==> r->Done_0->Some_0@.rich == snap@.rich,
{
}

/// Under X11 the offered types are asked for first; without a display there is nothing to
/// read.
pub proof fn law_other_reads_begin(cm: &ClipboardManager, mimes: Vec<String>, r: ReadStep)
    requires
        call_ensures(ClipboardManager::read, (cm, mimes), r),
    ensures
        cm@.backend == BackendKind::X11 ==> r is Run && r->Run_0.stage is Targets && text::views(
            r->Run_0.mimes@,
        ) == text::views(mimes@) && r->Run_1@ == (CommandView {
            program: "xclip"@,
            args: seq!["-selection"@, "clipboard"@, "-target"@, "TARGETS"@, "-o"@],
        }),
        cm@.backend == BackendKind::Headless ==> r is Done && r->Done_0 is None,
{
}

/// The type that a snapshot was made under, its content and its digest are what was given;
/// the text is the content of a text type that is UTF-8, and the markup what was given.
pub proof fn law_snapshots(
    mime: &str,
    bytes: Vec<u8>,
    sha256: String,
    html: String,
    alt: Option<String>,
    plain: ClipboardSnapshot,
    image: ClipboardSnapshot,
    rich: ClipboardSnapshot,
    text_of_plain: Option<&str>,
    is_image: bool,
    size: usize,
)
    requires
        call_ensures(ClipboardSnapshot::new_text, (mime, bytes, sha256), plain),
        call_ensures(ClipboardSnapshot::new_image, (mime, bytes, sha256), image),
        call_ensures(ClipboardSnapshot::new_html, (html, alt, sha256), rich),
        call_ensures(ClipboardSnapshot::text, (&plain,), text_of_plain),
        call_ensures(ClipboardSnapshot::is_image, (&image,), is_image),
        call_ensures(ClipboardSnapshot::size, (&plain,), size),
    ensures
        plain.mime@ == mime@ && plain.bytes@ == bytes@ && plain.sha256@ == sha256@
            && plain.rich is None,
        image.mime@ == mime@ && image.bytes@ == bytes@ && image.sha256@ == sha256@
            && image.rich is None,
        rich.mime@ == "text/html"@ && rich.sha256@ == sha256@ && rich.rich is Some,
        rich.rich->Some_0.html@ == html@ && rich.rich->Some_0.sha256@ == sha256@,
        alt is Some ==> rich.bytes@ == encode_utf8(alt->Some_0@),
        alt is None ==> rich.bytes@ == encode_utf8(html@),
        text_of_plain is Some <==> names_text(mime@) && valid_utf8(bytes@),
        text_of_plain is Some ==> encode_utf8(text_of_plain->Some_0@) == bytes@,
        is_image <==> names_image(mime@),
        size == bytes@.len(),
{
    lemma_names(mime@);
    if valid_utf8(bytes@) {
        vstd::utf8::decode_utf8_encode_utf8(bytes@);
    }
    assert(plain@.mime == mime@);
    assert(rich@.rich is Some);
}

/// The backend is Wayland's where its display is there, else X11's where that is, else
/// none; a preference for X11 is met where X11 is there.
pub proof fn law_backend(
    preference: &str,
    wayland: bool,
    x11: bool,
    auto: ClipboardManager,
    preferred: ClipboardManager,
    shared: ClipboardManager,
)
    requires
        call_ensures(ClipboardManager::new, (wayland, x11), auto),
        call_ensures(ClipboardManager::preferring, (preference, wayland, x11), preferred),
        call_ensures(ClipboardManager::share_self_write, (&auto,), shared),
    ensures
        wayland ==> auto@.backend == BackendKind::Wayland,
        !wayland && x11 ==> auto@.backend == BackendKind::X11,
        !wayland && !x11 ==> auto@.backend == BackendKind::Headless,
        auto@.last_seen is None,
        x11 && preference@ == "x11"@ ==> preferred@.backend == BackendKind::X11,
        !(x11 && preference@ == "x11"@) ==> preferred@ == auto@,
        shared@.backend == auto@.backend && shared@.last_seen is None,
{
}

/// The tools that a backend needs: both of Wayland's, X11's one, none without a display.
pub proof fn law_needed_tools(cm: &ClipboardManager, tools: ClipboardTools, r: Result<(), Error>)
    requires
        call_ensures(ClipboardManager::check_tools, (cm, &tools), r),
    ensures
        cm@.backend == BackendKind::Wayland ==> (r is Ok <==> tools.wl_copy && tools.wl_paste),
        cm@.backend == BackendKind::X11 ==> (r is Ok <==> tools.xclip),
        cm@.backend == BackendKind::Headless ==> r is Ok,
        r is Err ==> r->Err_0 is Clipboard,
{
}

/// What a tracker was last set to is what it matches, until it is cleared.
pub proof fn law_tracker(
    t: &mut SelfWriteTracker,
    sha256: String,
    set: (),
    other: &str,
    matched: bool,
    now: SelfWriteTracker,
)
    requires
        call_ensures(SelfWriteTracker::set, (t, sha256), set),
        now == *final(t),
        call_ensures(SelfWriteTracker::matches, (&now, other), matched),
    ensures
        matched <==> other@ == sha256@,
{
}

} // verus!
