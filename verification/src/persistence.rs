//! How files are replaced: written under a name of their own first, then moved into
//! place, so that what was there stays whole until the new contents are.

use vstd::prelude::*;

use crate::entropy;

verus! {

/// How many names are tried for a temporary file.
pub const MAX_NAMES: u32 = 16;

/// The name of a file, or `clipsync` where it has none that can be read.
pub open spec fn base_name(name: Option<Seq<char>>) -> Seq<char> {
    match name {
        Some(n) => n,
        None => "clipsync"@,
    }
}

/// Whether `s` is a name for the temporary form of a file: hidden, and random.
pub open spec fn is_temporary_name(s: Seq<char>, name: Option<Seq<char>>) -> bool {
    exists|id: Seq<char>|
        #[trigger] entropy::is_uuid(id) && s == "."@ + base_name(name) + "."@ + id + ".tmp"@
}

/// A random name for the temporary form of a file.
pub fn temporary_name(name: Option<&str>) -> (r: String)
    ensures
        is_temporary_name(
            r@,
            match name {
                Some(n) => Some(n@),
                None => None,
            },
        ),
{
    let id = entropy::new_uuid();
    temporary_name_for(name, id.as_str())
}

/// The name for the temporary form of a file with the random part `id`.
pub fn temporary_name_for(name: Option<&str>, id: &str) -> (r: String)
    ensures
        r@ == "."@ + base_name(
            match name {
                Some(n) => Some(n@),
                None => None,
            },
        ) + "."@ + id@ + ".tmp"@,
{
    let mut r = ".".to_owned();
    match name {
        Some(n) => r.append(n),
        None => r.append("clipsync"),
    }
    r.append(".");
    r.append(id);
    r.append(".tmp");
    r
}

/// What came of an attempt to create a temporary file.
#[derive(Debug, Clone, Copy, PartialEq, Eq, Structural)]
pub enum Attempt {
    Created,
    /// There is a file of that name.
    Taken,
    Failed,
}

/// What to do after an attempt.
#[derive(Debug, Clone, Copy, PartialEq, Eq, Structural)]
pub enum NextAttempt {
    Use,
    TryAgain,
    /// Give up, for want of a free name.
    Exhausted,
    /// Give up, with the error that came.
    Fail,
}

/// What to do after attempt number `n`, the first being 1.
pub fn next_attempt(attempt: Attempt, n: u32) -> (r: NextAttempt)
    ensures
        r == match attempt {
            Attempt::Created => NextAttempt::Use,
            Attempt::Taken => if n < MAX_NAMES {
                NextAttempt::TryAgain
            } else {
                NextAttempt::Exhausted
            },
            Attempt::Failed => NextAttempt::Fail,
        },
{
    match attempt {
        Attempt::Created => NextAttempt::Use,
        Attempt::Taken => if n < MAX_NAMES {
            NextAttempt::TryAgain
        } else {
            NextAttempt::Exhausted
        },
        Attempt::Failed => NextAttempt::Fail,
    }
}

/// What is said where no free name was found.
pub fn exhausted_text() -> (r: &'static str)
    ensures
        r@ == "não foi possível reservar arquivo temporário"@,
{
    "não foi possível reservar arquivo temporário"
}

/// A temporary file is hidden, bears the file's name, or `clipsync` where it has none, and
/// ends in its random part and `.tmp`; names are tried while they are taken, 16 at most.
pub proof fn law_temporary_files(
    name: Option<&str>,
    id: &str,
    r: String,
    attempt: Attempt,
    n: u32,
    next: NextAttempt,
)
    requires
        call_ensures(temporary_name_for, (name, id), r),
        call_ensures(next_attempt, (attempt, n), next),
    ensures
        name is Some ==> r@ == "."@ + name->Some_0@ + "."@ + id@ + ".tmp"@,
        name is None ==> r@ == "."@ + "clipsync"@ + "."@ + id@ + ".tmp"@,
        next == NextAttempt::Use <==> attempt == Attempt::Created,
        next == NextAttempt::Fail <==> attempt == Attempt::Failed,
        next == NextAttempt::TryAgain <==> attempt == Attempt::Taken && n < 16,
        next == NextAttempt::Exhausted <==> attempt == Attempt::Taken && n >= 16,
{
}

/// Every temporary file has a random part of its own between the name and `.tmp`.
pub proof fn law_random_names(name: Option<&str>, r: String)
    requires
        call_ensures(temporary_name, (name,), r),
    ensures
        name is Some ==> exists|id: Seq<char>|
            id.len() == 36 && r@ == #[trigger] ("."@ + name->Some_0@ + "."@ + id + ".tmp"@),
        name is None ==> exists|id: Seq<char>|
            id.len() == 36 && r@ == #[trigger] ("."@ + "clipsync"@ + "."@ + id + ".tmp"@),
{
}

} // verus!
