//! The X11 clipboard, through `xclip`.

use vstd::prelude::*;

use super::{
    is_supported_image_mime, snapshot_of, ClipboardManager, CommandView, OutcomeView, PlanView, ReadPlan,
    ReadStage, ReadStep, StageView, StepView, ToolCommand, ToolOutcome, ToolPhase, MIME_HTML, MIME_JPEG, MIME_PNG,
    MIME_TEXT, MIME_TEXT_PLAIN,
};
use crate::encoding;
use crate::error::{Error, ErrorView};
use crate::text;

verus! {

/// The most that is read from or written to the clipboard.
pub const MAX_BYTES: usize = 26_214_400;

/// The message for content over the limit.
pub const TOO_LARGE: &'static str = "conteúdo X11 excede o limite de 26214400 bytes";

/// The command that reads `target`.
pub open spec fn fetch_command(target: Seq<char>) -> CommandView {
    CommandView {
        program: "xclip"@,
        args: seq!["-selection"@, "clipboard"@, "-target"@, target, "-o"@],
    }
}

/// The command that reads `target`.
pub fn fetch(target: &str) -> (r: ToolCommand)
    ensures
        r@ == fetch_command(target@),
{
    let args: Vec<String> = vec![
        "-selection".to_owned(),
        "clipboard".to_owned(),
        "-target".to_owned(),
        target.to_owned(),
        "-o".to_owned(),
    ];
    let r = ToolCommand { program: "xclip".to_owned(), args };
    assert(r@.args =~= fetch_command(target@).args);
    r
}

/// Whether `target`, as the clipboard names it, provides `mime`.
pub open spec fn provides(target: Seq<char>, mime: Seq<char>) -> bool {
    ||| text::lower_of(target) == text::lower_of(mime)
    ||| mime == MIME_TEXT@ && (target == "UTF8_STRING"@ || target == "text/plain"@)
    ||| mime == MIME_TEXT_PLAIN@ && target == "UTF8_STRING"@
}

/// Whether one of the targets, a line each, provides `mime`.
pub open spec fn offered(mime: Seq<char>, targets: Seq<char>) -> bool {
    let l = text::lines_of(targets);
    exists|i: int| 0 <= i < l.len() && provides(text::trim_of(#[trigger] l[i]), mime)
}

/// Whether one of the targets, a line each, provides `mime`.
pub fn target_available(mime: &str, targets: &str) -> (r: bool)
    ensures
        r == offered(mime@, targets@),
{
    let l = text::lines(targets);
    let ghost lines = text::lines_of(targets@);
    assert(text::views(l@).len() == l@.len());
    let mut i: usize = 0;
    while i < l.len()
        invariant
            i <= l@.len(),
            text::views(l@) == lines,
            lines.len() == l@.len(),
            lines == text::lines_of(targets@),
            forall|k: int| 0 <= k < i ==> !provides(text::trim_of(#[trigger] lines[k]), mime@),
        decreases l@.len() - i,
    {
        assert(lines[i as int] == l@[i as int]@);
        let target = text::trim(l[i].as_str());
        let t = target.as_str();
        if text::eq_ignore_ascii_case(t, mime) || (text::same(mime, MIME_TEXT) && (text::same(
            t,
            "UTF8_STRING",
        ) || text::same(t, "text/plain"))) || (text::same(mime, MIME_TEXT_PLAIN) && text::same(
            t,
            "UTF8_STRING",
        )) {
            assert(provides(text::trim_of(lines[i as int]), mime@));
            return true;
        }
        i = i + 1;
    }
    false
}

/// Whether `mime` is read: it is offered, and no markup, which is not read under X11.
pub open spec fn readable(mime: Seq<char>, targets: Seq<char>) -> bool {
    mime != MIME_HTML@ && offered(mime, targets)
}

/// The place of the first of `mimes` from `i` on that is read.
pub open spec fn first_offered(mimes: Seq<Seq<char>>, targets: Seq<char>, i: nat) -> Option<nat>
    decreases mimes.len() - i,
{
    if i >= mimes.len() {
        None
    } else if readable(mimes[i as int], targets) {
        Some(i)
    } else {
        first_offered(mimes, targets, i + 1)
    }
}

/// The target that content of type `mime` is read and written as.
pub open spec fn target_of(mime: Seq<char>) -> Seq<char> {
    if plain_text(mime) {
        "UTF8_STRING"@
    } else {
        mime
    }
}

/// The target that content of type `mime` is read and written as: text is
/// `UTF8_STRING`, an image its own type.
pub fn target_for(mime: &str) -> (r: String)
    ensures
        r@ == target_of(mime@),
{
    if is_text_mime(mime) {
        "UTF8_STRING".to_owned()
    } else {
        mime.to_owned()
    }
}

/// How a read goes on once the offered targets are known: only an offered type is
/// fetched, and no markup.
pub open spec fn after_targets(mimes: Seq<Seq<char>>, outcome: OutcomeView) -> StepView {
    match outcome {
        OutcomeView::Failed { phase, reason } => StepView::Failed(
            ErrorView::Clipboard("falha executando xclip TARGETS: "@ + reason),
        ),
        OutcomeView::Finished { success, stdout } => if !success {
            StepView::Done(None)
        } else {
            match first_offered(mimes, encoding::lossy_text(stdout), 0) {
                None => StepView::Done(None),
                Some(i) => StepView::Run(
                    PlanView { mimes, stage: StageView::Fetching(i) },
                    fetch_command(target_of(mimes[i as int])),
                ),
            }
        },
    }
}

/// Goes on with a read once the offered targets are known.
pub fn choose_target(mimes: Vec<String>, outcome: ToolOutcome) -> (r: ReadStep)
    ensures
        r@ == after_targets(text::views(mimes@), outcome@),
        r matches ReadStep::Run(plan, _) ==> plan.wf(),
{
    match outcome {
        ToolOutcome::Failed { phase: _, reason } => ReadStep::Failed(
            Error::Clipboard(text::join("falha executando xclip TARGETS: ", reason.as_str())),
        ),
        ToolOutcome::Finished { success, stdout } => {
            if !success {
                return ReadStep::Done(None);
            }
            let available = encoding::utf8_lossy(stdout.as_slice());
            let ghost m = text::views(mimes@);
            let mut i: usize = 0;
            while i < mimes.len()
                invariant
                    i <= mimes@.len(),
                    m == text::views(mimes@),
                    available@ == encoding::lossy_text(stdout@),
                    first_offered(m, available@, 0) == first_offered(m, available@, i as nat),
                    outcome@ == (OutcomeView::Finished { success: true, stdout: stdout@ }),
                decreases mimes@.len() - i,
            {
                assert(m[i as int] == mimes@[i as int]@);
                if !text::same(mimes[i].as_str(), MIME_HTML) && target_available(
                    mimes[i].as_str(),
                    available.as_str(),
                ) {
                    let command = fetch(target_for(mimes[i].as_str()).as_str());
                    return ReadStep::Run(
                        ReadPlan { mimes, stage: ReadStage::Fetching(i) },
                        command,
                    );
                }
                i = i + 1;
            }
            ReadStep::Done(None)
        },
    }
}

proof fn lemma_first_offered(mimes: Seq<Seq<char>>, targets: Seq<char>, i: nat)
    requires
        first_offered(mimes, targets, i) is Some,
    ensures
        i <= first_offered(mimes, targets, i)->Some_0 < mimes.len(),
        readable(mimes[first_offered(mimes, targets, i)->Some_0 as int], targets),
        forall|k: int|
            i <= k < first_offered(mimes, targets, i)->Some_0 ==> !readable(
                #[trigger] mimes[k],
                targets,
            ),
    decreases mimes.len() - i,
{
    if !readable(mimes[i as int], targets) {
        lemma_first_offered(mimes, targets, i + 1);
    }
}

/// Only what the clipboard offers is fetched, and of that what is preferred most: an
/// image is never read as text that is not there. Markup is never read.
pub proof fn law_only_offered_is_fetched(
    mimes: Seq<Seq<char>>,
    stdout: Seq<u8>,
    i: nat,
    command: CommandView,
)
    requires
        after_targets(mimes, OutcomeView::Finished { success: true, stdout }) == StepView::Run(
            PlanView { mimes, stage: StageView::Fetching(i) },
            command,
        ),
    ensures
        i < mimes.len(),
        mimes[i as int] != MIME_HTML@,
        offered(mimes[i as int], encoding::lossy_text(stdout)),
        forall|k: int|
            0 <= k < i ==> !readable(#[trigger] mimes[k], encoding::lossy_text(stdout)),
        command == fetch_command(target_of(mimes[i as int])),
{
    lemma_first_offered(mimes, encoding::lossy_text(stdout), 0);
}

/// How a read ends once the content of type `mime` came.
pub open spec fn after_fetch(mime: Seq<char>, outcome: OutcomeView) -> StepView {
    match outcome {
        OutcomeView::Failed { phase, reason } => StepView::Failed(
            ErrorView::Clipboard(
                match phase {
                    ToolPhase::Start => "falha executando xclip "@,
                    ToolPhase::Read => "falha lendo xclip "@,
                    ToolPhase::Wait => "falha aguardando xclip "@,
                } + mime + ": "@ + reason,
            ),
        ),
        OutcomeView::Finished { success, stdout } => if stdout.len() > MAX_BYTES {
            StepView::Failed(ErrorView::Clipboard(TOO_LARGE@))
        } else if !success || stdout.len() == 0 {
            StepView::Done(None)
        } else {
            StepView::Done(Some(snapshot_of(mime, stdout)))
        },
    }
}

/// Ends a read once the content of type `mime` came. A reader that stops as soon as it
/// holds more than `MAX_BYTES` hands in what it has.
pub fn take_fetched(mime: &str, outcome: ToolOutcome) -> (r: ReadStep)
    ensures
        r@ == after_fetch(mime@, outcome@),
        !(r is Run),
{
    match outcome {
        ToolOutcome::Failed { phase, reason } => {
            let mut m = match phase {
                ToolPhase::Start => "falha executando xclip ".to_owned(),
                ToolPhase::Read => "falha lendo xclip ".to_owned(),
                ToolPhase::Wait => "falha aguardando xclip ".to_owned(),
            };
            m.append(mime);
            m.append(": ");
            m.append(reason.as_str());
            ReadStep::Failed(Error::Clipboard(m))
        },
        ToolOutcome::Finished { success, stdout } => {
            if stdout.len() > MAX_BYTES {
                return ReadStep::Failed(Error::Clipboard(TOO_LARGE.to_owned()));
            }
            if !success || stdout.len() == 0 {
                return ReadStep::Done(None);
            }
            ReadStep::Done(Some(ClipboardManager::snapshot(mime, stdout)))
        },
    }
}

/// Whether `mime` is one of the two plain text types.
pub open spec fn plain_text(mime: Seq<char>) -> bool {
    mime == MIME_TEXT@ || mime == MIME_TEXT_PLAIN@
}

/// Whether `mime` is one of the two plain text types.
pub fn is_text_mime(mime: &str) -> (r: bool)
    ensures
        r == plain_text(mime@),
{
    text::same(mime, MIME_TEXT) || text::same(mime, MIME_TEXT_PLAIN)
}

/// Why content of type `mime` and `size` bytes is not written, if so.
pub open spec fn store_refusal(mime: Seq<char>, size: nat) -> Option<ErrorView> {
    if mime != MIME_PNG@ && mime != MIME_JPEG@ && !plain_text(mime) {
        Some(ErrorView::Protocol("MIME X11 não suportado: "@ + mime))
    } else if size > MAX_BYTES {
        Some(ErrorView::Clipboard(TOO_LARGE@))
    } else {
        None
    }
}

/// The command that writes content of type `mime`.
pub open spec fn store_command(mime: Seq<char>) -> CommandView {
    CommandView {
        program: "xclip"@,
        args: seq![
            "-selection"@,
            "clipboard"@,
            "-target"@,
            target_of(mime),
            "-i"@,
        ],
    }
}

/// The command that writes `size` bytes of type `mime`.
pub fn store(mime: &str, size: usize) -> (r: Result<ToolCommand, Error>)
    ensures
        match r {
            Ok(c) => store_refusal(mime@, size as nat) is None && c@ == store_command(mime@),
            Err(e) => store_refusal(mime@, size as nat) == Some(e@),
        },
{
    if !is_supported_image_mime(mime) && !is_text_mime(mime) {
        return Err(Error::Protocol(text::join("MIME X11 não suportado: ", mime)));
    }
    if size > MAX_BYTES {
        return Err(Error::Clipboard(TOO_LARGE.to_owned()));
    }
    let target = target_for(mime);
    let args: Vec<String> = vec![
        "-selection".to_owned(),
        "clipboard".to_owned(),
        "-target".to_owned(),
        target,
        "-i".to_owned(),
    ];
    let c = ToolCommand { program: "xclip".to_owned(), args };
    assert(c@.args =~= store_command(mime@).args);
    Ok(c)
}

/// Whether the clipboard's list of targets, one in a line, has a line that reads `target`
/// but for the space around it.
pub open spec fn lists(targets: Seq<char>, target: Seq<char>) -> bool {
    exists|i: int|
        0 <= i < text::lines_of(targets).len() && text::trim_of(
            #[trigger] text::lines_of(targets)[i],
        ) == target
}

/// A type that is listed is available; text is available where `UTF8_STRING` is listed; a
/// type is not available where no line reads like it and it is no text.
pub proof fn law_targets(mime: &str, targets: &str, r: bool)
    requires
        call_ensures(target_available, (mime, targets), r),
    ensures
        lists(targets@, mime@) ==> r,
        lists(targets@, "UTF8_STRING"@) && (mime@ == "text/plain;charset=utf-8"@ || mime@
            == "text/plain"@) ==> r,
        lists(targets@, "text/plain"@) && mime@ == "text/plain;charset=utf-8"@ ==> r,
        mime@ != "text/plain;charset=utf-8"@ && mime@ != "text/plain"@ && (forall|i: int|
            0 <= i < text::lines_of(targets@).len() ==> text::lower_of(
                text::trim_of(#[trigger] text::lines_of(targets@)[i]),
            ) != text::lower_of(mime@)) ==> !r,
{
    let l = text::lines_of(targets@);
    if lists(targets@, mime@) {
        let i = choose|i: int| 0 <= i < l.len() && text::trim_of(#[trigger] l[i]) == mime@;
        assert(provides(text::trim_of(l[i]), mime@));
    }
    if lists(targets@, "UTF8_STRING"@) && (mime@ == "text/plain;charset=utf-8"@ || mime@
        == "text/plain"@) {
        let i = choose|i: int| 0 <= i < l.len() && text::trim_of(#[trigger] l[i]) == "UTF8_STRING"@;
        assert(provides(text::trim_of(l[i]), mime@));
    }
    if lists(targets@, "text/plain"@) && mime@ == "text/plain;charset=utf-8"@ {
        let i = choose|i: int| 0 <= i < l.len() && text::trim_of(#[trigger] l[i]) == "text/plain"@;
        assert(provides(text::trim_of(l[i]), mime@));
    }
}

/// Of the preferred types, the first that is available and no markup is fetched, by its
/// own name or as `UTF8_STRING` where it is text; where there is none, nothing is.
pub proof fn law_fetch_follows_the_offer(
    mimes: Vec<String>,
    outcome: ToolOutcome,
    r: ReadStep,
    available: spec_fn(Seq<char>) -> bool,
)
    requires
        call_ensures(choose_target, (mimes, outcome), r),
        outcome is Finished,
        outcome->success,
        forall|m: Seq<char>| #[trigger]
            available(m) == offered(m, encoding::lossy_text(outcome->stdout@)),
    ensures
        !(r is Failed),
        r is Done ==> r->Done_0 is None && forall|i: int|
            0 <= i < mimes@.len() ==> (#[trigger] mimes@[i])@ == "text/html"@ || !available(
                mimes@[i]@,
            ),
        r is Run ==> r->Run_0.stage is Fetching && text::views(r->Run_0.mimes@) == text::views(
            mimes@,
        ) && {
            let i = r->Run_0.stage->Fetching_0;
            let mime = mimes@[i as int]@;
            &&& i < mimes@.len()
            &&& available(mime) && mime != "text/html"@
            &&& forall|k: int|
                0 <= k < i ==> (#[trigger] mimes@[k])@ == "text/html"@ || !available(mimes@[k]@)
            &&& r->Run_1@ == (CommandView {
                program: "xclip"@,
                args: seq![
                    "-selection"@,
                    "clipboard"@,
                    "-target"@,
                    if mime == "text/plain;charset=utf-8"@ || mime == "text/plain"@ {
                        "UTF8_STRING"@
                    } else {
                        mime
                    },
                    "-o"@,
                ],
            })
        },
{
    let m = text::views(mimes@);
    let t = encoding::lossy_text(outcome->stdout@);
    assert forall|i: int| 0 <= i < mimes@.len() implies #[trigger] m[i] == mimes@[i]@ by {}
    if first_offered(m, t, 0) is Some {
        lemma_first_offered(m, t, 0);
        let i = first_offered(m, t, 0)->Some_0;
        assert forall|k: int| 0 <= k < i implies (#[trigger] mimes@[k])@ == "text/html"@
            || !available(mimes@[k]@) by {
            assert(!readable(m[k], t));
        }
    } else {
        lemma_none_offered(m, t, 0);
        assert forall|i: int| 0 <= i < mimes@.len() implies (#[trigger] mimes@[i])@ == "text/html"@
            || !available(mimes@[i]@) by {
            assert(!readable(m[i], t));
        }
    }
}

proof fn lemma_none_offered(mimes: Seq<Seq<char>>, targets: Seq<char>, i: nat)
    requires
        first_offered(mimes, targets, i) is None,
        i <= mimes.len(),
    ensures
        forall|k: int| i <= k < mimes.len() ==> !readable(#[trigger] mimes[k], targets),
    decreases mimes.len() - i,
{
    if i < mimes.len() {
        lemma_none_offered(mimes, targets, i + 1);
    }
}

/// What was fetched is the content under its type, byte for byte and with its own digest;
/// more than 25 MiB is an error, and what failed or is empty is nothing.
pub proof fn law_fetched_content(mime: &str, outcome: ToolOutcome, r: ReadStep)
    requires
        call_ensures(take_fetched, (mime, outcome), r),
    ensures
        outcome is Failed ==> r is Failed,
        outcome is Finished && outcome->stdout@.len() > 26_214_400 ==> r is Failed,
        outcome is Finished && outcome->stdout@.len() <= 26_214_400 && (!outcome->success
            || outcome->stdout@.len() == 0) ==> r is Done && r->Done_0 is None,
        outcome is Finished && 0 < outcome->stdout@.len() <= 26_214_400 && outcome->success ==> {
            &&& r is Done && r->Done_0 is Some
            &&& r->Done_0->Some_0.mime@ == mime@
            &&& r->Done_0->Some_0.bytes@ == outcome->stdout@
            &&& r->Done_0->Some_0@.sha256 == encoding::hex_of(
                crate::hashing::sha256(outcome->stdout@),
            )
            &&& r->Done_0->Some_0@.rich is None
        },
{
    if r is Done && r->Done_0 is Some {
        assert(r->Done_0->Some_0@.mime == r->Done_0->Some_0.mime@);
    }
}

/// Under X11 text and images of a size that fits are stored, each under its own type, text as
/// `UTF8_STRING`; nothing else is. What is fetched is fetched under its target.
pub proof fn law_storing(
    mime: &str,
    size: usize,
    r: Result<ToolCommand, Error>,
    target: &str,
    fetched: ToolCommand,
)
    requires
        call_ensures(store, (mime, size), r),
        call_ensures(fetch, (target,), fetched),
    ensures
        r is Ok <==> (mime@ == "image/png"@ || mime@ == "image/jpeg"@ || mime@ == "text/plain"@
            || mime@ == "text/plain;charset=utf-8"@) && size <= 25 * 1024 * 1024,
        r is Ok ==> r->Ok_0.program@ == "xclip"@ && r->Ok_0.args@.len() == 5
            && r->Ok_0.args@[0]@ == "-selection"@ && r->Ok_0.args@[1]@ == "clipboard"@
            && r->Ok_0.args@[2]@ == "-target"@ && r->Ok_0.args@[4]@ == "-i"@,
        r is Ok && (mime@ == "image/png"@ || mime@ == "image/jpeg"@) ==> r->Ok_0.args@[3]@ == mime@,
        r is Ok && mime@ != "image/png"@ && mime@ != "image/jpeg"@ ==> r->Ok_0.args@[3]@
            == "UTF8_STRING"@,
        fetched.program@ == "xclip"@ && fetched.args@.len() == 5 && fetched.args@[0]@
            == "-selection"@ && fetched.args@[1]@ == "clipboard"@ && fetched.args@[2]@
            == "-target"@ && fetched.args@[3]@ == target@ && fetched.args@[4]@ == "-o"@,
{
    reveal_strlit("image/png");
    reveal_strlit("image/jpeg");
    reveal_strlit("text/plain");
    reveal_strlit("text/plain;charset=utf-8");
    assert("image/png"@.len() != "image/jpeg"@.len());
    assert("image/png"@.len() != "text/plain"@.len());
    assert("image/jpeg"@[0] != "text/plain"@[0]);
    let f = text::views(fetched.args@);
    assert(f.len() == fetched.args@.len());
    assert(f[0] == fetched.args@[0]@ && f[1] == fetched.args@[1]@ && f[2] == fetched.args@[2]@
        && f[3] == fetched.args@[3]@ && f[4] == fetched.args@[4]@);
    if r is Ok {
        let a = text::views(r->Ok_0.args@);
        assert(a.len() == r->Ok_0.args@.len());
        assert(a[0] == r->Ok_0.args@[0]@ && a[1] == r->Ok_0.args@[1]@ && a[2]
            == r->Ok_0.args@[2]@ && a[3] == r->Ok_0.args@[3]@ && a[4] == r->Ok_0.args@[4]@);
    }
}

} // verus!
