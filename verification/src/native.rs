//! The reveal dispatcher for platforms with a native
//! open-folder-and-select-items call.
//!
//! The platform shell is driven through three calls: construct a shell
//! item handle from a wide path, release a handle, and open a folder with
//! a list of items selected.  The dispatcher here decides, for one reveal
//! request, exactly which of those calls are made and in what order; the
//! surrounding process performs them and supplies the shell's replies (the
//! handle each construction returned, and the dispatch status) as plain
//! values.  Handles are call-local: every handle the shell hands out is
//! released exactly once before the request ends, on success and on every
//! failure path alike.

use vstd::prelude::*;

use crate::error::RevealError;
use crate::helpers::NativePath;

verus! {

/// One call into the platform shell, in the order issued.
#[derive(Debug, Clone, PartialEq, Eq)]
pub enum NativeCall {
    /// Ensure the calling thread's shell subsystem is initialized.  The
    /// call is idempotent and its own outcome is not inspected: a failure
    /// here surfaces through the follow-on calls.
    Init,
    /// Construct a shell item handle from a wide path.
    Create { path: NativePath },
    /// Release a shell item handle.
    Free { handle: u64 },
    /// Open the folder containing `folder`'s item with `selected`
    /// highlighted, in order; an empty list highlights the folder's own
    /// item.
    OpenAndSelect { folder: u64, selected: Vec<u64> },
}

/// The mathematical form of one shell call.
pub enum NativeCallView {
    Init,
    Create { path: Seq<u16> },
    Free { handle: u64 },
    OpenAndSelect { folder: u64, selected: Seq<u64> },
}

impl View for NativeCall {
    type V = NativeCallView;

    open spec fn view(&self) -> NativeCallView {
        match self {
            NativeCall::Init => NativeCallView::Init,
            NativeCall::Create { path } => NativeCallView::Create { path: path@ },
            NativeCall::Free { handle } => NativeCallView::Free { handle: *handle },
            NativeCall::OpenAndSelect { folder, selected } => NativeCallView::OpenAndSelect {
                folder: *folder,
                selected: selected@,
            },
        }
    }
}

/// The views of a sequence of shell calls.
pub open spec fn views_of(calls: Seq<NativeCall>) -> Seq<NativeCallView> {
    calls.map_values(|c: NativeCall| c@)
}

/// The index of the first failed handle construction, or the length when
/// every construction succeeded.
pub open spec fn first_none(cs: Seq<Option<u64>>) -> int
    decreases cs.len(),
{
    if cs.len() == 0 {
        0
    } else if cs[0] is None {
        0
    } else {
        1 + first_none(cs.skip(1))
    }
}

/// The construction calls for the first `n` companion paths.
pub open spec fn creates_of(items: Seq<Seq<u16>>, n: int) -> Seq<NativeCallView> {
    Seq::new(n as nat, |j: int| NativeCallView::Create { path: items[j] })
}

/// The handles the shell returned for the first `n` companions.
pub open spec fn handles_of(created: Seq<Option<u64>>, n: int) -> Seq<u64> {
    Seq::new(n as nat, |j: int| created[j + 1]->0)
}

/// The release calls for a list of handles, in order.
pub open spec fn frees_of(handles: Seq<u64>) -> Seq<NativeCallView> {
    handles.map_values(|h: u64| NativeCallView::Free { handle: h })
}

/// The calls a single-path reveal makes, given the shell's reply to the
/// anchor construction.
pub open spec fn that_calls(anchor: Seq<u16>, created: Option<u64>) -> Seq<NativeCallView> {
    if created is None {
        seq![NativeCallView::Init, NativeCallView::Create { path: anchor }]
    } else {
        seq![
            NativeCallView::Init,
            NativeCallView::Create { path: anchor },
            NativeCallView::OpenAndSelect { folder: created->0, selected: Seq::empty() },
            NativeCallView::Free { handle: created->0 },
        ]
    }
}

/// The result a single-path reveal reports.
pub open spec fn that_result(created: Option<u64>, status: i32) -> Result<(), RevealError> {
    if created is None {
        Err(RevealError::ResolveFailed)
    } else if status == 0 {
        Ok(())
    } else {
        Err(RevealError::DispatchFailed { code: status })
    }
}

/// The calls a multi-path reveal makes: construct the anchor's handle,
/// construct each companion's handle in list order, dispatch with the
/// companion handles in that same order, then release every companion
/// handle and last the anchor handle.  When a construction fails, every
/// handle already obtained is released instead and nothing is dispatched.
pub open spec fn those_calls(
    anchor: Seq<u16>,
    items: Seq<Seq<u16>>,
    created: Seq<Option<u64>>,
) -> Seq<NativeCallView> {
    if created.len() == 0 || created[0] is None {
        seq![NativeCallView::Init, NativeCallView::Create { path: anchor }]
    } else {
        let h0 = created[0]->0;
        let f = first_none(created.skip(1));
        if f < items.len() {
            seq![NativeCallView::Init, NativeCallView::Create { path: anchor }] + creates_of(
                items,
                f + 1,
            ) + frees_of(handles_of(created, f)) + seq![NativeCallView::Free { handle: h0 }]
        } else {
            seq![NativeCallView::Init, NativeCallView::Create { path: anchor }] + creates_of(
                items,
                items.len() as int,
            )
                + seq![
                NativeCallView::OpenAndSelect {
                    folder: h0,
                    selected: handles_of(created, items.len() as int),
                },
            ] + frees_of(handles_of(created, items.len() as int)) + seq![
                NativeCallView::Free { handle: h0 },
            ]
        }
    }
}

/// The result a multi-path reveal reports.
pub open spec fn those_result(
    created: Seq<Option<u64>>,
    n_items: int,
    status: i32,
) -> Result<(), RevealError> {
    if created.len() == 0 || created[0] is None {
        Err(RevealError::ResolveFailed)
    } else if first_none(created.skip(1)) < n_items {
        Err(RevealError::CompanionResolveFailed)
    } else if status == 0 {
        Ok(())
    } else {
        Err(RevealError::DispatchFailed { code: status })
    }
}

/// Reveals one path: opens its containing folder with the path's own item
/// highlighted.  `created` is the handle the shell's construction call
/// returned (`None` for a null reply) and `status` is what the dispatch
/// call returned where one was made; the result lists the shell calls in
/// the order they are issued, paired with the reported outcome.
pub fn that(anchor: &NativePath, created: Option<u64>, status: i32) -> (r: (
    Vec<NativeCall>,
    Result<(), RevealError>,
))
    ensures
        views_of(r.0@) == that_calls(anchor@, created),
        r.1 == that_result(created, status),
{
    let mut calls: Vec<NativeCall> = Vec::new();
    calls.push(NativeCall::Init);
    calls.push(NativeCall::Create { path: NativePath { units: clone_copied(&anchor.units) } });
    match created {
        None => {
            proof {
                assert(views_of(calls@) =~= that_calls(anchor@, created));
            }
            (calls, Err(RevealError::ResolveFailed))
        },
        Some(h) => {
            calls.push(NativeCall::OpenAndSelect { folder: h, selected: Vec::new() });
            calls.push(NativeCall::Free { handle: h });
            proof {
                assert(views_of(calls@) =~= that_calls(anchor@, created));
            }
            let outcome = if status == 0 {
                Ok(())
            } else {
                Err(RevealError::DispatchFailed { code: status })
            };
            (calls, outcome)
        },
    }
}

/// A copy of a vector of plain values.
fn clone_copied<T: Copy>(v: &Vec<T>) -> (r: Vec<T>)
    ensures
        r@ == v@,
{
    let mut r: Vec<T> = Vec::new();
    let mut i: usize = 0;
    while i < v.len()
        invariant
            i <= v@.len(),
            r@ == v@.take(i as int),
        decreases v@.len() - i,
    {
        r.push(v[i]);
        proof {
            assert(v@.take(i + 1) =~= v@.take(i as int).push(v@[i as int]));
        }
        i += 1;
    }
    proof {
        assert(v@.take(v@.len() as int) =~= v@);
    }
    r
}

/// Appends one release call per handle, in order.
#[verifier::loop_isolation(false)]
fn push_frees(calls: &mut Vec<NativeCall>, handles: &Vec<u64>)
    ensures
        views_of(final(calls)@) == views_of(old(calls)@) + frees_of(handles@),
{
    let mut j: usize = 0;
    while j < handles.len()
        invariant
            j <= handles@.len(),
            views_of(calls@) == views_of(old(calls)@) + frees_of(handles@.take(j as int)),
        decreases handles@.len() - j,
    {
        let ghost pre = calls@;
        calls.push(NativeCall::Free { handle: handles[j] });
        proof {
            assert(views_of(calls@) =~= views_of(pre).push(
                NativeCallView::Free { handle: handles@[j as int] },
            ));
            assert(handles@.take(j + 1) =~= handles@.take(j as int).push(handles@[j as int]));
            assert(frees_of(handles@.take(j + 1)) =~= frees_of(handles@.take(j as int)).push(
                NativeCallView::Free { handle: handles@[j as int] },
            ));
            assert(views_of(calls@) =~= views_of(old(calls)@) + frees_of(handles@.take(j + 1)));
        }
        j += 1;
    }
    proof {
        assert(handles@.take(handles@.len() as int) =~= handles@);
    }
}

/// How many release calls a call sequence holds.
pub open spec fn num_frees(calls: Seq<NativeCallView>) -> int
    decreases calls.len(),
{
    if calls.len() == 0 {
        0
    } else {
        (if calls[0] is Free {
            1int
        } else {
            0int
        }) + num_frees(calls.skip(1))
    }
}

/// Release counts add up over concatenation.
proof fn lemma_num_frees_add(a: Seq<NativeCallView>, b: Seq<NativeCallView>)
    ensures
        num_frees(a + b) == num_frees(a) + num_frees(b),
    decreases a.len(),
{
    if a.len() == 0 {
        assert(a + b =~= b);
    } else {
        assert((a + b)[0] == a[0]);
        assert((a + b).skip(1) =~= a.skip(1) + b);
        lemma_num_frees_add(a.skip(1), b);
    }
}

/// A sequence of release calls holds one release per handle.
proof fn lemma_num_frees_frees_of(handles: Seq<u64>)
    ensures
        num_frees(frees_of(handles)) == handles.len(),
    decreases handles.len(),
{
    if handles.len() > 0 {
        assert(frees_of(handles)[0] is Free);
        assert(frees_of(handles).skip(1) =~= frees_of(handles.skip(1)));
        lemma_num_frees_frees_of(handles.skip(1));
    }
}

/// Construction calls hold no release.
proof fn lemma_num_frees_creates(items: Seq<Seq<u16>>, n: int)
    requires
        0 <= n <= items.len(),
    ensures
        num_frees(creates_of(items, n)) == 0,
    decreases n,
{
    if n == 0 {
        assert(creates_of(items, 0) =~= Seq::<NativeCallView>::empty());
    } else {
        assert(!(creates_of(items, n)[0] is Free));
        assert(creates_of(items, n).skip(1) =~= creates_of(items.skip(1), n - 1));
        lemma_num_frees_creates(items.skip(1), n - 1);
    }
}

/// The index of the first failed construction, pinned down.
proof fn lemma_first_none_at(cs: Seq<Option<u64>>, i: int)
    requires
        0 <= i < cs.len(),
        forall|j: int| 0 <= j < i ==> cs[j] is Some,
        cs[i] is None,
    ensures
        first_none(cs) == i,
    decreases i,
{
    if i > 0 {
        assert(cs[0] is Some);
        assert(cs.skip(1)[i - 1] is None);
        assert(forall|j: int| 0 <= j < i - 1 ==> cs.skip(1)[j] is Some);
        lemma_first_none_at(cs.skip(1), i - 1);
    }
}

/// When every construction succeeded there is no first failure.
proof fn lemma_first_none_all(cs: Seq<Option<u64>>)
    requires
        forall|j: int| 0 <= j < cs.len() ==> cs[j] is Some,
    ensures
        first_none(cs) == cs.len(),
    decreases cs.len(),
{
    if cs.len() > 0 {
        assert(forall|j: int| 0 <= j < cs.len() - 1 ==> cs.skip(1)[j] is Some);
        lemma_first_none_all(cs.skip(1));
    }
}

/// Reveals an anchor path's folder with the companion paths highlighted in
/// list order.  `created` holds the shell's reply to each construction
/// call that would be made — the anchor's first, then one per companion in
/// order — and `status` is what the dispatch call returned where one was
/// made.  The result lists the shell calls in the order they are issued,
/// paired with the reported outcome: every handle the shell handed out is
/// released exactly once, and a failed companion construction aborts the
/// request with nothing dispatched.
#[verifier::loop_isolation(false)]
pub fn those(
    anchor: &NativePath,
    items: &Vec<NativePath>,
    created: &Vec<Option<u64>>,
    status: i32,
) -> (r: (Vec<NativeCall>, Result<(), RevealError>))
    requires
        created@.len() == items@.len() + 1,
    ensures
        views_of(r.0@) == those_calls(
            anchor@,
            items@.map_values(|p: NativePath| p@),
            created@,
        ),
        r.1 == those_result(created@, items@.len() as int, status),
{
    let ghost items_v: Seq<Seq<u16>> = items@.map_values(|p: NativePath| p@);
    let mut calls: Vec<NativeCall> = Vec::new();
    calls.push(NativeCall::Init);
    calls.push(NativeCall::Create { path: NativePath { units: clone_copied(&anchor.units) } });
    if created[0].is_none() {
        proof {
            assert(views_of(calls@) =~= those_calls(anchor@, items_v, created@));
        }
        return (calls, Err(RevealError::ResolveFailed));
    }
    let h0 = created[0].unwrap();
    let mut handles: Vec<u64> = Vec::new();
    let mut i: usize = 0;
    let mut failed = false;
    while i < items.len() && !failed
        invariant
            i <= items@.len(),
            handles@.len() == i,
            forall|j: int| 1 <= j <= i ==> (#[trigger] created@[j]) is Some,
            forall|j: int| 0 <= j < i ==> #[trigger] handles@[j] == created@[j + 1]->0,
            failed ==> i < items@.len() && created@[i + 1] is None,
            views_of(calls@) == seq![
                NativeCallView::Init,
                NativeCallView::Create { path: anchor@ },
            ] + creates_of(
                items_v,
                if failed {
                    i + 1
                } else {
                    i as int
                },
            ),
        decreases
                items@.len() - i,
                if failed {
                    0int
                } else {
                    1int
                },
    {
        let ghost pre = calls@;
        calls.push(NativeCall::Create { path: NativePath { units: clone_copied(&items[i].units) } });
        proof {
            assert(views_of(calls@) =~= views_of(pre).push(
                NativeCallView::Create { path: items_v[i as int] },
            ));
            assert(views_of(calls@) =~= seq![
                NativeCallView::Init,
                NativeCallView::Create { path: anchor@ },
            ] + creates_of(items_v, i + 1));
        }
        match created[i + 1] {
            Some(h) => {
                proof {
                    assert(created@[i + 1] == Some(h));
                }
                let ghost hs = handles@;
                handles.push(h);
                i += 1;
                proof {
                    assert forall|j: int| 1 <= j <= i implies (#[trigger] created@[j])
                        is Some by {
                        if j == i {
                            assert(created@[j] == Some(h));
                        }
                    }
                    assert forall|j: int| 0 <= j < i implies #[trigger] handles@[j] == created@[j
                        + 1]->0 by {
                        if j < i - 1 {
                            assert(handles@[j] == hs[j]);
                        } else {
                            assert(handles@[j] == h);
                        }
                    }
                }
            },
            None => {
                failed = true;
            },
        }
    }
    if failed {
        proof {
            assert(created@.skip(1)[i as int] is None);
            assert forall|j: int| 0 <= j < i implies created@.skip(1)[j] is Some by {
                assert(created@.skip(1)[j] == created@[j + 1]);
            }
            lemma_first_none_at(created@.skip(1), i as int);
        }
        push_frees(&mut calls, &handles);
        let ghost pre_anchor_free = calls@;
        calls.push(NativeCall::Free { handle: h0 });
        proof {
            assert(views_of(calls@) =~= views_of(pre_anchor_free).push(
                NativeCallView::Free { handle: h0 },
            ));
            assert(handles@ =~= handles_of(created@, i as int));
            assert(views_of(calls@) =~= those_calls(anchor@, items_v, created@));
        }
        return (calls, Err(RevealError::CompanionResolveFailed));
    }
    proof {
        assert forall|j: int| 0 <= j < created@.skip(1).len() implies created@.skip(1)[j]
            is Some by {
            assert(created@.skip(1)[j] == created@[j + 1]);
        }
        lemma_first_none_all(created@.skip(1));
    }
    let selected = clone_copied(&handles);
    let ghost pre_open = calls@;
    calls.push(NativeCall::OpenAndSelect { folder: h0, selected });
    proof {
        assert(views_of(calls@) =~= views_of(pre_open).push(
            NativeCallView::OpenAndSelect { folder: h0, selected: handles@ },
        ));
    }
    push_frees(&mut calls, &handles);
    let ghost pre_anchor_free = calls@;
    calls.push(NativeCall::Free { handle: h0 });
    proof {
        assert(views_of(calls@) =~= views_of(pre_anchor_free).push(
            NativeCallView::Free { handle: h0 },
        ));
        assert(handles@ =~= handles_of(created@, items@.len() as int));
        assert(views_of(calls@) =~= those_calls(anchor@, items_v, created@));
    }
    let outcome = if status == 0 {
        Ok(())
    } else {
        Err(RevealError::DispatchFailed { code: status })
    };
    (calls, outcome)
}

/// Law: when the construction of the `n`th companion's handle fails after
/// every earlier construction succeeded, the request releases exactly the
/// handles it obtained — the `n - 1` earlier companion handles, in order,
/// then the anchor handle; `n` releases in all, none for the failed
/// construction — and dispatches nothing.
pub proof fn lemma_partial_failure_unwinds(
    anchor: Seq<u16>,
    items: Seq<Seq<u16>>,
    created: Seq<Option<u64>>,
    n: int,
)
    requires
        created.len() == items.len() + 1,
        1 <= n <= items.len(),
        created[0] is Some,
        forall|j: int| 1 <= j < n ==> created[j] is Some,
        created[n] is None,
    ensures
        those_calls(anchor, items, created) == seq![
            NativeCallView::Init,
            NativeCallView::Create { path: anchor },
        ] + creates_of(items, n) + frees_of(handles_of(created, n - 1)) + seq![
            NativeCallView::Free { handle: created[0]->0 },
        ],
        num_frees(those_calls(anchor, items, created)) == n,
        forall|k: int|
            0 <= k < those_calls(anchor, items, created).len() ==> !(those_calls(
                anchor,
                items,
                created,
            )[k] is OpenAndSelect),
{
    assert forall|j: int| 0 <= j < n - 1 implies created.skip(1)[j] is Some by {
        assert(created.skip(1)[j] == created[j + 1]);
    }
    assert(created.skip(1)[n - 1] is None);
    lemma_first_none_at(created.skip(1), n - 1);
    let a = seq![NativeCallView::Init, NativeCallView::Create { path: anchor }];
    let b = creates_of(items, n);
    let c = frees_of(handles_of(created, n - 1));
    let d = seq![NativeCallView::Free { handle: created[0]->0 }];
    let calls = those_calls(anchor, items, created);
    assert(calls == a + b + c + d);
    lemma_num_frees_add(a + b + c, d);
    lemma_num_frees_add(a + b, c);
    lemma_num_frees_add(a, b);
    lemma_num_frees_creates(items, n);
    lemma_num_frees_frees_of(handles_of(created, n - 1));
    assert(num_frees(Seq::<NativeCallView>::empty()) == 0);
    let a1 = seq![NativeCallView::Create { path: anchor }];
    assert(a1.skip(1) =~= Seq::<NativeCallView>::empty());
    assert(num_frees(a1) == 0);
    assert(a.skip(1) =~= a1);
    assert(num_frees(a) == 0);
    assert(d.skip(1) =~= Seq::<NativeCallView>::empty());
    assert(num_frees(d) == 1);
    assert(b.len() == n && c.len() == n - 1);
    assert forall|k: int| 0 <= k < calls.len() implies !(calls[k] is OpenAndSelect) by {
        if 0 <= k < 2 {
            assert(calls[k] == a[k]);
        } else if 2 <= k < 2 + n {
            assert(calls[k] == b[k - 2]);
        } else if 2 + n <= k < 2 * n + 1 {
            assert(calls[k] == c[k - 2 - n]);
        } else {
            assert(calls[k] == d[0]);
        }
    }
}

/// Law: on a fully successful request every allocated handle — the
/// anchor's and one per companion — is released exactly once, whatever
/// the dispatch call returned.
pub proof fn lemma_success_releases_all(
    anchor: Seq<u16>,
    items: Seq<Seq<u16>>,
    created: Seq<Option<u64>>,
)
    requires
        created.len() == items.len() + 1,
        forall|j: int| 0 <= j < created.len() ==> created[j] is Some,
    ensures
        num_frees(those_calls(anchor, items, created)) == items.len() + 1,
{
    assert forall|j: int| 0 <= j < created.skip(1).len() implies created.skip(1)[j] is Some by {
        assert(created.skip(1)[j] == created[j + 1]);
    }
    lemma_first_none_all(created.skip(1));
    let n = items.len() as int;
    let a = seq![NativeCallView::Init, NativeCallView::Create { path: anchor }];
    let b = creates_of(items, n);
    let o = seq![
        NativeCallView::OpenAndSelect { folder: created[0]->0, selected: handles_of(created, n) },
    ];
    let c = frees_of(handles_of(created, n));
    let d = seq![NativeCallView::Free { handle: created[0]->0 }];
    let calls = those_calls(anchor, items, created);
    assert(calls == a + b + o + c + d);
    lemma_num_frees_add(a + b + o + c, d);
    lemma_num_frees_add(a + b + o, c);
    lemma_num_frees_add(a + b, o);
    lemma_num_frees_add(a, b);
    lemma_num_frees_creates(items, n);
    lemma_num_frees_frees_of(handles_of(created, n));
    assert(num_frees(Seq::<NativeCallView>::empty()) == 0);
    let a1 = seq![NativeCallView::Create { path: anchor }];
    assert(a1.skip(1) =~= Seq::<NativeCallView>::empty());
    assert(num_frees(a1) == 0);
    assert(a.skip(1) =~= a1);
    assert(num_frees(a) == 0);
    assert(o.skip(1) =~= Seq::<NativeCallView>::empty());
    assert(num_frees(o) == 0);
    assert(d.skip(1) =~= Seq::<NativeCallView>::empty());
    assert(num_frees(d) == 1);
}

/// Law: a reveal with an empty companion list makes the same shell calls
/// and reports the same result as the single-path reveal of its anchor.
pub proof fn lemma_empty_companions(anchor: Seq<u16>, created: Option<u64>, status: i32)
    ensures
        those_calls(anchor, Seq::empty(), seq![created]) == that_calls(anchor, created),
        those_result(seq![created], 0, status) == that_result(created, status),
{
    let cs = seq![created];
    assert(cs[0] == created);
    if created is Some {
        assert(cs.skip(1) =~= Seq::<Option<u64>>::empty());
        lemma_first_none_all(cs.skip(1));
        assert(handles_of(cs, 0) =~= Seq::<u64>::empty());
        assert(creates_of(Seq::empty(), 0) =~= Seq::<NativeCallView>::empty());
        assert(frees_of(Seq::<u64>::empty()) =~= Seq::<NativeCallView>::empty());
        assert(those_calls(anchor, Seq::empty(), cs) =~~= that_calls(anchor, created));
    } else {
        assert(those_calls(anchor, Seq::empty(), cs) =~~= that_calls(anchor, created));
    }
}

/// Law: the dispatch call lists the companion handles in exactly the input
/// order, whatever the list's length, under the anchor's folder handle,
/// and it is the only dispatch the request makes.
pub proof fn lemma_dispatch_order(anchor: Seq<u16>, items: Seq<Seq<u16>>, created: Seq<Option<u64>>)
    requires
        created.len() == items.len() + 1,
        forall|j: int| 0 <= j < created.len() ==> created[j] is Some,
    ensures
        ({
            let calls = those_calls(anchor, items, created);
            let n = items.len() as int;
            &&& calls.len() == 2 * n + 4
            &&& calls[n + 2] is OpenAndSelect
            &&& calls[n + 2]->OpenAndSelect_folder == created[0]->0
            &&& calls[n + 2]->OpenAndSelect_selected.len() == n
            &&& forall|j: int|
                0 <= j < n ==> #[trigger] calls[n + 2]->OpenAndSelect_selected[j] == created[j
                    + 1]->0
            &&& forall|k: int|
                0 <= k < calls.len() && calls[k] is OpenAndSelect ==> k == n + 2
        }),
{
    assert forall|j: int| 0 <= j < created.skip(1).len() implies created.skip(1)[j] is Some by {
        assert(created.skip(1)[j] == created[j + 1]);
    }
    lemma_first_none_all(created.skip(1));
    let n = items.len() as int;
    let a = seq![NativeCallView::Init, NativeCallView::Create { path: anchor }];
    let b = creates_of(items, n);
    let o = seq![
        NativeCallView::OpenAndSelect { folder: created[0]->0, selected: handles_of(created, n) },
    ];
    let c = frees_of(handles_of(created, n));
    let d = seq![NativeCallView::Free { handle: created[0]->0 }];
    let calls = those_calls(anchor, items, created);
    assert(calls == a + b + o + c + d);
    assert(b.len() == n && c.len() == n && o.len() == 1);
    assert(calls[n + 2] == o[0]);
    assert forall|k: int|
        0 <= k < calls.len() && calls[k] is OpenAndSelect implies k == n + 2 by {
        if 0 <= k < 2 {
            assert(calls[k] == a[k]);
        } else if 2 <= k < 2 + n {
            assert(calls[k] == b[k - 2]);
        } else if n + 3 <= k < 2 * n + 3 {
            assert(calls[k] == c[k - n - 3]);
        } else if k == 2 * n + 3 {
            assert(calls[k] == d[0]);
        }
    }
}

} // verus!
