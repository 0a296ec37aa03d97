//! Global hotkeys: which of the front end's bindings are registered (trimmed,
//! non-empty, each accelerator once), and the report of the registration.
use vstd::prelude::*;
use crate::cookie::str_views;
use crate::text::{owned, trim_spec, trim_str};

verus! {

/// A hotkey binding sent by the front end; `accelerator` is written like
/// `Control+Shift+P` or `MediaPlayPause`.
pub struct HotkeyBinding {
    pub action: String,
    pub accelerator: String,
}

/// Why a shortcut could not be registered.
pub struct HotkeyConflict {
    pub source_name: String,
    pub source_icon: String,
    pub reason: String,
}

/// The outcome of registering one binding.
pub struct HotkeyResult {
    pub action: String,
    pub accelerator: String,
    pub ok: bool,
    pub conflict: Option<HotkeyConflict>,
}

/// The report of a whole registration.
pub struct ConfigureResult {
    pub ok: bool,
    pub results: Vec<HotkeyResult>,
}

/// The conflict reported for a shortcut that is taken or reserved.
pub fn make_conflict() -> (r: HotkeyConflict)
    ensures
        r.source_name@ == "系统 / 其他软件"@,
        r.source_icon@ == "warning"@,
        r.reason@ == "该组合键已被占用或被系统保留"@,
{
    HotkeyConflict {
        source_name: owned("系统 / 其他软件"),
        source_icon: owned("warning"),
        reason: owned("该组合键已被占用或被系统保留"),
    }
}

/// The `(action, accelerator)` pairs of the bindings `b[..k]` that are
/// registered: both parts trimmed, pairs with an empty part skipped, and an
/// accelerator registered only the first time it appears.
pub open spec fn plan_spec(b: Seq<(Seq<char>, Seq<char>)>) -> Seq<(Seq<char>, Seq<char>)>
    decreases b.len(),
{
    if b.len() == 0 {
        Seq::empty()
    } else {
        let prev = plan_spec(b.drop_last());
        let a = trim_spec(b.last().0);
        let k = trim_spec(b.last().1);
        if a.len() == 0 || k.len() == 0 || (exists|i: int| 0 <= i < prev.len() && #[trigger] prev[i].1 == k) {
            prev
        } else {
            prev.push((a, k))
        }
    }
}

/// The bindings as pairs of their texts.
pub open spec fn bindings_view(v: Seq<HotkeyBinding>) -> Seq<(Seq<char>, Seq<char>)> {
    Seq::new(v.len(), |i: int| (v[i].action@, v[i].accelerator@))
}

/// The pairs of a list of registered bindings.
pub open spec fn pairs_view(v: Seq<(String, String)>) -> Seq<(Seq<char>, Seq<char>)> {
    Seq::new(v.len(), |i: int| (v[i].0@, v[i].1@))
}

/// The bindings to register, in order (see `plan_spec`).
pub fn plan_hotkeys(bindings: &Vec<HotkeyBinding>) -> (r: Vec<(String, String)>)
    ensures
        pairs_view(r@) == plan_spec(bindings_view(bindings@)),
{
    let mut out: Vec<(String, String)> = Vec::new();
    let mut i: usize = 0;
    while i < bindings.len()
        invariant
            i <= bindings.len(),
            pairs_view(out@) == plan_spec(bindings_view(bindings@).take(i as int)),
        decreases bindings.len() - i,
    {
        let ghost bv = bindings_view(bindings@);
        proof {
            assert(bv.take(i + 1).drop_last() =~= bv.take(i as int));
            assert(bv.take(i + 1).last() == (bindings@[i as int].action@, bindings@[i as int].accelerator@));
        }
        let action = trim_str(bindings[i].action.as_str());
        let accel = trim_str(bindings[i].accelerator.as_str());
        let mut seen = false;
        let mut j: usize = 0;
        while j < out.len()
            invariant
                j <= out.len(),
                seen ==> exists|x: int| 0 <= x < out@.len() && #[trigger] pairs_view(out@)[x].1 == accel@,
                !seen ==> forall|x: int| 0 <= x < j ==> out@[x].1@ != accel@,
            decreases out.len() - j,
        {
            if crate::text::str_eq(out[j].1.as_str(), accel.as_str()) {
                assert(pairs_view(out@)[j as int].1 == accel@);
                seen = true;
            }
            j = j + 1;
        }
        proof {
            if !seen {
                assert forall|x: int| 0 <= x < pairs_view(out@).len() implies #[trigger] pairs_view(out@)[x].1 != accel@ by {
                    assert(pairs_view(out@)[x].1 == out@[x].1@);
                }
            }
        }
        let a_empty = crate::text::chars_of(action.as_str()).len() == 0;
        let k_empty = crate::text::chars_of(accel.as_str()).len() == 0;
        if !(a_empty || k_empty || seen) {
            let ghost before = pairs_view(out@);
            out.push((action, accel));
            assert(pairs_view(out@) =~= before.push((trim_spec(bv[i as int].0), trim_spec(bv[i as int].1))));
        }
        i = i + 1;
    }
    assert(bindings_view(bindings@).take(bindings.len() as int) =~= bindings_view(bindings@));
    out
}

/// The bindings that are registered have non-empty parts and pairwise
/// different accelerators.
pub proof fn lemma_plan_distinct(b: Seq<(Seq<char>, Seq<char>)>)
    ensures
        forall|i: int| 0 <= i < plan_spec(b).len() ==> (#[trigger] plan_spec(b)[i]).0.len() > 0 && plan_spec(b)[i].1.len() > 0,
        forall|i: int, j: int| 0 <= i < plan_spec(b).len() && 0 <= j < plan_spec(b).len() && i != j ==> (#[trigger] plan_spec(b)[i]).1 != (#[trigger] plan_spec(b)[j]).1,
    decreases b.len(),
{
    if b.len() > 0 {
        lemma_plan_distinct(b.drop_last());
        let prev = plan_spec(b.drop_last());
        let p = plan_spec(b);
        let k = trim_spec(b.last().1);
        if p != prev {
            assert forall|i: int, j: int| 0 <= i < p.len() && 0 <= j < p.len() && i != j implies (#[trigger] p[i]).1 != (#[trigger] p[j]).1 by {
                if i == prev.len() {
                    assert(p[j] == prev[j]);
                } else if j == prev.len() {
                    assert(p[i] == prev[i]);
                } else {
                    assert(p[i] == prev[i]);
                    assert(p[j] == prev[j]);
                }
            }
            assert forall|i: int| 0 <= i < p.len() implies (#[trigger] p[i]).0.len() > 0 && p[i].1.len() > 0 by {
                if i < prev.len() {
                    assert(p[i] == prev[i]);
                }
            }
        }
    }
}

/// The report of one binding: registered, or refused with the conflict.
pub fn hotkey_result(action: String, accelerator: String, registered: bool) -> (r: HotkeyResult)
    ensures
        r.action == action,
        r.accelerator == accelerator,
        r.ok == registered,
        registered ==> r.conflict is None,
        !registered ==> (r.conflict matches Some(c) && c.source_name@ == "系统 / 其他软件"@
            && c.source_icon@ == "warning"@ && c.reason@ == "该组合键已被占用或被系统保留"@),
{
    if registered {
        HotkeyResult { action, accelerator, ok: true, conflict: None }
    } else {
        HotkeyResult { action, accelerator, ok: false, conflict: Some(make_conflict()) }
    }
}

/// The report of a whole registration, which always succeeds as a whole.
pub fn configure_result(results: Vec<HotkeyResult>) -> (r: ConfigureResult)
    ensures
        r.ok,
        r.results == results,
{
    ConfigureResult { ok: true, results }
}

} // verus!
