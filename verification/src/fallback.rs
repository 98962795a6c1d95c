//! The reveal dispatcher for platforms without a native
//! open-folder-and-select call.
//!
//! A reveal is reduced to a single target path — the first companion when
//! any is given, the anchor otherwise — and dispatched through an ordered
//! fallback chain: ask the graphical file manager to select the target's
//! absolute path; when that process cannot be started at all, ask a
//! generic opener to open the target's containing directory instead.  A
//! process that started but exited unsuccessfully ends the request: the
//! fallback is only for a file manager that is absent, never for one that
//! ran and failed.  The state machine here makes every decision; the
//! surrounding process canonicalizes the path, launches the subprocesses,
//! and feeds each outcome back in as an event.

use vstd::prelude::*;

use crate::error::RevealError;

verus! {

/// What the surrounding process reports back for the one piece of outside
/// work the current state asked it to perform.
#[derive(Debug, PartialEq, Eq)]
pub enum Event {
    /// The outcome of canonicalizing the raw target path: its absolute
    /// canonical form, or nothing when the path does not resolve.
    Resolved { abs: Option<String> },
    /// The launched process ran to completion with this exit status.
    Exited { success: bool, status: i32 },
    /// The process could not be started at all.
    NotStarted { message: String },
}

/// The state of one reveal request.  Each non-final state names the
/// outside work the surrounding process must perform next.
#[derive(Debug, PartialEq, Eq)]
pub enum RevealFlow {
    /// Canonicalize `raw` and report `Event::Resolved`.
    Resolving { raw: String },
    /// Launch the file manager asking it to select `target`; report
    /// `Event::Exited` or `Event::NotStarted`.
    Primary { target: String, parent: String },
    /// Launch the generic opener on the directory `parent`; report
    /// `Event::Exited` or `Event::NotStarted`.
    Secondary { parent: String, primary_message: String },
    /// The request is complete with this outcome.
    Finished { outcome: Result<(), RevealError> },
}

/// The index of the last separator in a path string, or -1 when there is
/// none.
pub open spec fn last_slash(s: Seq<char>) -> int
    decreases s.len(),
{
    if s.len() == 0 {
        -1
    } else if s[s.len() - 1] == '/' {
        s.len() - 1
    } else {
        last_slash(s.drop_last())
    }
}

/// The containing directory of a canonical path: everything before the
/// last separator; the root when the last separator leads the string; the
/// empty string when there is no separator at all.
pub open spec fn parent_of(s: Seq<char>) -> Seq<char> {
    if last_slash(s) < 0 {
        Seq::empty()
    } else if last_slash(s) == 0 {
        seq!['/']
    } else {
        s.take(last_slash(s))
    }
}

/// A separator with nothing after it is the last one.
proof fn lemma_last_slash_at(s: Seq<char>, k: int)
    requires
        0 <= k < s.len(),
        s[k] == '/',
        forall|j: int| k < j < s.len() ==> s[j] != '/',
    ensures
        last_slash(s) == k,
    decreases s.len(),
{
    if k < s.len() - 1 {
        assert(s.drop_last()[k] == s[k]);
        assert forall|j: int| k < j < s.len() - 1 implies s.drop_last()[j] != '/' by {
            assert(s.drop_last()[j] == s[j]);
        }
        lemma_last_slash_at(s.drop_last(), k);
    }
}

/// A string without separators has no last one.
proof fn lemma_last_slash_none(s: Seq<char>)
    requires
        forall|j: int| 0 <= j < s.len() ==> s[j] != '/',
    ensures
        last_slash(s) == -1,
    decreases s.len(),
{
    if s.len() > 0 {
        assert forall|j: int| 0 <= j < s.len() - 1 implies s.drop_last()[j] != '/' by {
            assert(s.drop_last()[j] == s[j]);
        }
        lemma_last_slash_none(s.drop_last());
    }
}

/// Computes the containing-directory form of a canonical path.
#[verifier::loop_isolation(false)]
pub fn parent_component(abs: &str) -> (p: String)
    ensures
        p@ == parent_of(abs@),
{
    let n = abs.unicode_len();
    let mut cut: usize = 0;
    let mut i: usize = 0;
    while i < n
        invariant
            i <= n,
            cut <= i,
            cut == 0 ==> forall|j: int| 0 <= j < i ==> abs@[j] != '/',
            cut >= 1 ==> abs@[cut - 1] == '/',
            forall|j: int| cut <= j < i ==> abs@[j] != '/',
        decreases n - i,
    {
        if abs.get_char(i) == '/' {
            cut = i + 1;
        }
        i += 1;
    }
    if cut == 0 {
        proof {
            lemma_last_slash_none(abs@);
        }
        String::new()
    } else if cut == 1 {
        proof {
            lemma_last_slash_at(abs@, 0);
            reveal_strlit("/");
            assert(("/")@ =~= seq!['/']);
        }
        "/".to_owned()
    } else {
        proof {
            lemma_last_slash_at(abs@, cut - 1);
        }
        abs.substring_char(0, cut - 1).to_owned()
    }
}

/// Begins a reveal of one path: the request starts by canonicalizing it.
pub fn that(path: String) -> (f: RevealFlow)
    ensures
        f matches RevealFlow::Resolving { raw } && raw@ == path@,
{
    RevealFlow::Resolving { raw: path }
}

/// Begins a reveal of an anchor with companions.  With no native
/// multi-select mechanism to delegate to, the request degrades to a
/// single-path reveal: the first companion when any is given, exactly as
/// a plain reveal of the anchor itself otherwise.
pub fn those(path: String, items: Vec<String>) -> (f: RevealFlow)
    ensures
        f matches RevealFlow::Resolving { raw } && raw@ == if items@.len() > 0 {
            items@[0]@
        } else {
            path@
        },
{
    let mut items = items;
    if items.len() > 0 {
        let first = items.remove(0);
        RevealFlow::Resolving { raw: first }
    } else {
        RevealFlow::Resolving { raw: path }
    }
}

/// Advances a request by one event.
///
/// The decisions, in order: a path that does not resolve fails the request
/// before anything is launched; a resolved path is handed to the file
/// manager for selection; a file manager that cannot be started at all is
/// replaced by the generic opener on the containing directory, carrying
/// the launch error along; a process that ran decides the request by its
/// exit status, successful or not — no further fallback; and when neither
/// process could be started the request fails with both launch errors.
pub fn step(f: RevealFlow, e: Event) -> (r: RevealFlow)
    requires
        !(f is Finished),
        f is Resolving ==> e is Resolved,
        f is Primary || f is Secondary ==> e is Exited || e is NotStarted,
    ensures
        f is Resolving ==> (e matches Event::Resolved { abs: None } ==> r == (
        RevealFlow::Finished { outcome: Err(RevealError::PathResolutionFailed) })),
        f is Resolving ==> (e matches Event::Resolved { abs: Some(a) } ==> (r matches
            RevealFlow::Primary { target, parent } && target@ == a@ && parent@ == parent_of(a@))),
        f is Primary ==> (e matches Event::Exited { success, status } ==> r == (
        RevealFlow::Finished {
            outcome: if success {
                Ok(())
            } else {
                Err(RevealError::FileManagerExited { status })
            },
        })),
        f matches RevealFlow::Primary { target, parent } ==> (e matches Event::NotStarted {
            message,
        } ==> (r matches RevealFlow::Secondary { parent: p, primary_message } && p@ == parent@
            && primary_message@ == message@)),
        f is Secondary ==> (e matches Event::Exited { success, status } ==> r == (
        RevealFlow::Finished {
            outcome: if success {
                Ok(())
            } else {
                Err(RevealError::FileManagerExited { status })
            },
        })),
        f matches RevealFlow::Secondary { parent, primary_message } ==> (e matches
            Event::NotStarted { message } ==> (r matches RevealFlow::Finished {
            outcome: Err(RevealError::NoFileManagerAvailable { primary, secondary }),
        } && primary@ == primary_message@ && secondary@ == message@)),
{
    match f {
        RevealFlow::Resolving { raw: _ } => match e {
            Event::Resolved { abs: None } => RevealFlow::Finished {
                outcome: Err(RevealError::PathResolutionFailed),
            },
            Event::Resolved { abs: Some(a) } => {
                let parent = parent_component(a.as_str());
                RevealFlow::Primary { target: a, parent }
            },
            Event::Exited { .. } | Event::NotStarted { .. } => {
                proof {
                    assert(false);
                }
                RevealFlow::Finished { outcome: Err(RevealError::PathResolutionFailed) }
            },
        },
        RevealFlow::Primary { target: _, parent } => match e {
            Event::Exited { success, status } => RevealFlow::Finished {
                outcome: if success {
                    Ok(())
                } else {
                    Err(RevealError::FileManagerExited { status })
                },
            },
            Event::NotStarted { message } => RevealFlow::Secondary {
                parent,
                primary_message: message,
            },
            Event::Resolved { .. } => {
                proof {
                    assert(false);
                }
                RevealFlow::Finished { outcome: Err(RevealError::PathResolutionFailed) }
            },
        },
        RevealFlow::Secondary { parent: _, primary_message } => match e {
            Event::Exited { success, status } => RevealFlow::Finished {
                outcome: if success {
                    Ok(())
                } else {
                    Err(RevealError::FileManagerExited { status })
                },
            },
            Event::NotStarted { message } => RevealFlow::Finished {
                outcome: Err(
                    RevealError::NoFileManagerAvailable {
                        primary: primary_message,
                        secondary: message,
                    },
                ),
            },
            Event::Resolved { .. } => {
                proof {
                    assert(false);
                }
                RevealFlow::Finished { outcome: Err(RevealError::PathResolutionFailed) }
            },
        },
        RevealFlow::Finished { outcome } => {
            proof {
                assert(false);
            }
            RevealFlow::Finished { outcome }
        },
    }
}

} // verus!
