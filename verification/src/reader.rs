//! What a plugin's file reader hands back, and what the host makes of each answer: a reading
//! that becomes the file the import wizard works on, a "not mine" that moves on to the next
//! reader, or a refusal that ends the attempt with an error. Running the module itself is the
//! host's.

use vstd::prelude::*;
use crate::error::UiError;
use crate::text::sentence;

verus! {

/// A reader's own warning. Its `code` is a stranger's vocabulary, so it travels beside the
/// sentence rather than instead of it.
#[derive(Debug, Clone, PartialEq, Eq)]
pub struct ReaderWarning {
    /// Which plugin's reader said it.
    pub plugin: String,
    pub row: Option<u32>,
    pub code: String,
    pub message: String,
}

/// What a reader produced: the app's own transaction document, as the reader wrote it, and its
/// warnings.
#[derive(Debug, Clone)]
pub struct Reading {
    pub canonical: String,
    pub warnings: Vec<ReaderWarning>,
}

/// Why a reader did not produce a file.
#[derive(Debug, Clone, PartialEq, Eq)]
pub enum Refusal {
    /// Not a file this reader knows. The only one that is not a failure: the host moves on.
    NotMine,
    /// Sealed, and the password was absent or wrong.
    NeedsPassword,
    /// Recognised and unreadable, or the module itself failed.
    Failed(String),
}

pub open spec fn not_mine_message(plugin: Seq<char>) -> Seq<char> {
    "reader "@ + plugin + " does not read this file"@
}

pub open spec fn protected_message(plugin: Seq<char>) -> Seq<char> {
    "the file is protected and reader "@ + plugin + " needs its password"@
}

pub open spec fn unrecognised_sample_message(plugin: Seq<char>) -> Seq<char> {
    "reader "@ + plugin + " does not recognise the sample it ships"@
}

/// The error a refusal is reported as, naming the reader.
pub open spec fn refusal_error(refusal: Refusal, plugin: Seq<char>, e: UiError) -> bool {
    match refusal {
        Refusal::NotMine => e matches UiError::Invalid { message } && message@ == not_mine_message(plugin),
        Refusal::NeedsPassword => e matches UiError::FileProtected { message } && message@
            == protected_message(plugin),
        Refusal::Failed(why) => e matches UiError::Reader { plugin: p, message } && p@ == plugin
            && message == why,
    }
}

impl Refusal {
    pub fn into_error(self, plugin: &str) -> (e: UiError)
        ensures
            refusal_error(self, plugin@, e),
    {
        match self {
            Refusal::NotMine => {
                let m = sentence(&["reader ", plugin, " does not read this file"]);
                proof {
                    reveal_with_fuel(crate::text::concat_all, 4);
                }
                UiError::invalid(m)
            },
            Refusal::NeedsPassword => {
                let m = sentence(&["the file is protected and reader ", plugin, " needs its password"]);
                proof {
                    reveal_with_fuel(crate::text::concat_all, 4);
                }
                UiError::FileProtected { message: m }
            },
            Refusal::Failed(why) => UiError::Reader { plugin: crate::text::owned(plugin), message: why },
        }
    }
}

/// The error a reader's refusal of its own sample is reported as when its package is checked:
/// not recognising the sample it ships says so; any other refusal is reported as ever.
pub fn sample_refusal(refusal: Refusal, id: &str) -> (e: UiError)
    ensures
        refusal is NotMine ==> (e matches UiError::Invalid { message } && message@
            == unrecognised_sample_message(id@)),
        !(refusal is NotMine) ==> refusal_error(refusal, id@, e),
{
    match refusal {
        Refusal::NotMine => {
            let m = sentence(&["reader ", id, " does not recognise the sample it ships"]);
            proof {
                reveal_with_fuel(crate::text::concat_all, 4);
            }
            UiError::invalid(m)
        },
        other => other.into_error(id),
    }
}

/// The error a reader gets when what it made of its own sample is not what its package says.
pub fn sample_mismatch(id: &str) -> (e: UiError)
    ensures
        e matches UiError::Invalid { message } && message@ == "reader "@ + id@
            + " does not read its own sample the way the package says it does"@,
{
    let m = sentence(&["reader ", id, " does not read its own sample the way the package says it does"]);
    proof {
        reveal_with_fuel(crate::text::concat_all, 4);
    }
    UiError::invalid(m)
}

/// What comes of one reader's answer while a file is offered to the readers in turn.
#[derive(Debug)]
pub enum ReadStep {
    /// This reader read the file: its address and what it made of it.
    Read { id: String, reading: Reading },
    /// Not this reader's file: the next one is asked.
    Next,
    /// The reader claimed the file and then failed: the attempt ends here, because the reader
    /// after it would be reading a file somebody has already said is not theirs.
    Stop(UiError),
}

/// Every warning, now naming the reader that said it.
pub open spec fn warnings_from(before: Seq<ReaderWarning>, after: Seq<ReaderWarning>, id: Seq<char>) -> bool {
    &&& after.len() == before.len()
    &&& forall|i: int| 0 <= i < before.len() ==> {
        &&& (#[trigger] after[i]).plugin@ == id
        &&& after[i].row == before[i].row
        &&& after[i].code == before[i].code
        &&& after[i].message == before[i].message
    }
}

/// What the reader at `id` answered, settled.
pub fn settle(id: String, outcome: Result<Reading, Refusal>) -> (s: ReadStep)
    ensures
        match outcome {
            Ok(reading) => s matches ReadStep::Read { id: i, reading: r } && i == id
                && r.canonical == reading.canonical && warnings_from(reading.warnings@, r.warnings@, id@),
            Err(Refusal::NotMine) => s is Next,
            Err(refusal) => s matches ReadStep::Stop(e) && refusal_error(refusal, id@, e),
        },
{
    match outcome {
        Ok(reading) => {
            let Reading { canonical, warnings } = reading;
            let mut marked: Vec<ReaderWarning> = Vec::new();
            let mut i: usize = 0;
            while i < warnings.len()
                invariant
                    i <= warnings.len(),
                    marked@.len() == i,
                    forall|k: int| 0 <= k < i ==> {
                        &&& (#[trigger] marked@[k]).plugin@ == id@
                        &&& marked@[k].row == warnings@[k].row
                        &&& marked@[k].code == warnings@[k].code
                        &&& marked@[k].message == warnings@[k].message
                    },
                decreases warnings.len() - i,
            {
                let w = &warnings[i];
                marked.push(ReaderWarning {
                    plugin: id.clone(),
                    row: w.row,
                    code: w.code.clone(),
                    message: w.message.clone(),
                });
                i = i + 1;
            }
            ReadStep::Read { id, reading: Reading { canonical, warnings: marked } }
        },
        Err(Refusal::NotMine) => ReadStep::Next,
        Err(refusal) => ReadStep::Stop(refusal.into_error(id.as_str())),
    }
}

} // verus!
