//! Laws of the reconciliation engine, stated and proved over the spec
//! transition `spec_next` and the outcome `spec_outcome` that the
//! executable `reconcile` is proved to follow exactly.
use vstd::prelude::*;

use crate::artwork::ArtCache;
use crate::reconciler::ReconcileOutcome;
use crate::reconciler::SpecId;
use crate::reconciler::SpecInput;
use crate::reconciler::SpecState;
use crate::reconciler::spec_art_key;
use crate::reconciler::spec_identity_of;
use crate::reconciler::spec_idle_state;
use crate::reconciler::spec_next;
use crate::reconciler::spec_outcome;
use crate::reconciler::spec_track_present;

verus! {

/// One tick's reading and clock, as the spec transition sees them.
pub struct SpecTick {
    pub input: SpecInput,
    pub now: int,
}

/// The state after a whole sequence of ticks.
pub open spec fn run_ticks(s: SpecState, ticks: Seq<SpecTick>) -> SpecState
    decreases ticks.len(),
{
    if ticks.len() == 0 {
        s
    } else {
        run_ticks(spec_next(s, ticks[0].input, ticks[0].now), ticks.skip(1))
    }
}

/// A tick that observes an active track and a successful position
/// probe, for the given identity.
pub open spec fn active_tick_for(t: SpecTick, id: SpecId) -> bool {
    &&& spec_track_present(t.input)
    &&& t.input.position is Some
    &&& spec_identity_of(t.input) == id
}

/// Consecutive ticks of a sequence never see the position move by more
/// than three seconds.
pub open spec fn small_steps(ticks: Seq<SpecTick>) -> bool {
    forall|k: int|
        1 <= k < ticks.len() ==> {
            let p = (#[trigger] ticks[k]).input.position.unwrap();
            let q = ticks[k - 1].input.position.unwrap();
            -3 <= p - q <= 3
        }
}

/// While the identity stays the same and the position never moves by
/// more than three seconds from the last recorded one, the anchor is
/// left exactly as it was, tick after tick.
pub proof fn lemma_anchor_preserved(s: SpecState, ticks: Seq<SpecTick>, id: SpecId)
    requires
        s.last_identity == Option::Some(id),
        s.last_position is Some,
        forall|k: int| 0 <= k < ticks.len() ==> active_tick_for(#[trigger] ticks[k], id),
        ticks.len() > 0 ==> -3 <= ticks[0].input.position.unwrap() - s.last_position.unwrap()
            <= 3,
        small_steps(ticks),
    ensures
        run_ticks(s, ticks).anchor == s.anchor,
        run_ticks(s, ticks).last_identity == Option::Some(id),
        run_ticks(s, ticks).last_position is Some,
    decreases ticks.len(),
{
    if ticks.len() > 0 {
        let s1 = spec_next(s, ticks[0].input, ticks[0].now);
        assert(active_tick_for(ticks[0], id));
        assert(s1.anchor == s.anchor);
        assert(s1.last_position == Option::Some(ticks[0].input.position.unwrap()));
        let rest = ticks.skip(1);
        assert forall|k: int| 0 <= k < rest.len() implies active_tick_for(
            #[trigger] rest[k],
            id,
        ) by {
            assert(rest[k] == ticks[k + 1]);
        }
        assert(small_steps(rest)) by {
            assert forall|k: int|
                1 <= k < rest.len() implies {
                    let p = (#[trigger] rest[k]).input.position.unwrap();
                    let q = rest[k - 1].input.position.unwrap();
                    -3 <= p - q <= 3
                } by {
                assert(rest[k] == ticks[k + 1]);
                assert(rest[k - 1] == ticks[k]);
                assert(1 <= k + 1 < ticks.len());
            }
        }
        if rest.len() > 0 {
            assert(rest[0] == ticks[1]);
        }
        lemma_anchor_preserved(s1, rest, id);
    }
}

/// Over any run of ticks that all carry one identity, with the position
/// moving by at most three seconds between consecutive ticks, and whose
/// first tick is a change of track: the anchor is set on that first
/// tick, to its clock reading, and never changes thereafter.
pub proof fn lemma_anchor_set_once(s: SpecState, ticks: Seq<SpecTick>, id: SpecId)
    requires
        ticks.len() > 0,
        s.last_identity != Option::Some(id),
        forall|k: int| 0 <= k < ticks.len() ==> active_tick_for(#[trigger] ticks[k], id),
        small_steps(ticks),
    ensures
        run_ticks(s, ticks).anchor == Option::Some(ticks[0].now),
{
    assert(active_tick_for(ticks[0], id));
    let s1 = spec_next(s, ticks[0].input, ticks[0].now);
    assert(s1.anchor == Option::Some(ticks[0].now));
    assert(s1.last_identity == Option::Some(id));
    assert(s1.last_position == Option::Some(ticks[0].input.position.unwrap()));
    let rest = ticks.skip(1);
    assert forall|k: int| 0 <= k < rest.len() implies active_tick_for(
        #[trigger] rest[k],
        id,
    ) by {
        assert(rest[k] == ticks[k + 1]);
    }
    assert(small_steps(rest)) by {
        assert forall|k: int|
            1 <= k < rest.len() implies {
                let p = (#[trigger] rest[k]).input.position.unwrap();
                let q = rest[k - 1].input.position.unwrap();
                -3 <= p - q <= 3
            } by {
            assert(rest[k] == ticks[k + 1]);
            assert(rest[k - 1] == ticks[k]);
            assert(1 <= k + 1 < ticks.len());
        }
    }
    if rest.len() > 0 {
        assert(rest[0] == ticks[1]);
    }
    lemma_anchor_preserved(s1, rest, id);
}

/// A position jump of more than three seconds between consecutive
/// ticks with the same identity recomputes the anchor as `now` minus
/// the position, on that tick.
pub proof fn lemma_seek_reanchors(s: SpecState, inp: SpecInput, now: int)
    requires
        spec_track_present(inp),
        inp.position is Some,
        s.last_identity == Option::Some(spec_identity_of(inp)),
        s.last_position is Some,
        s.last_position.unwrap() - inp.position.unwrap() > 3 || inp.position.unwrap()
            - s.last_position.unwrap() > 3,
    ensures
        spec_next(s, inp, now).anchor == Option::Some(now - inp.position.unwrap()),
{
}

/// A drift of at most three seconds under the same identity keeps the
/// anchor exactly as it was.
pub proof fn lemma_small_drift_keeps_anchor(s: SpecState, inp: SpecInput, now: int)
    requires
        spec_track_present(inp),
        inp.position is Some,
        s.last_identity == Option::Some(spec_identity_of(inp)),
        s.last_position is Some,
        -3 <= inp.position.unwrap() - s.last_position.unwrap() <= 3,
    ensures
        spec_next(s, inp, now).anchor == s.anchor,
{
}

/// A track-identity change always resets the anchor to `now`, whatever
/// the prior anchor held.
pub proof fn lemma_change_resets_anchor(s: SpecState, inp: SpecInput, now: int)
    requires
        spec_track_present(inp),
        inp.position is Some,
        s.last_identity != Option::Some(spec_identity_of(inp)),
    ensures
        spec_next(s, inp, now).anchor == Option::Some(now),
        spec_next(s, inp, now).last_identity == Option::Some(spec_identity_of(inp)),
{
}

/// Once the cache holds an entry for a tick's (artist, album) pair, no
/// tick asks to resolve that pair again: together with the cache's
/// write-once contract, artwork resolution runs at most once per pair
/// over the process lifetime.
pub proof fn lemma_cache_gates_refetch(cache: ArtCache, s: SpecState, inp: SpecInput)
    requires
        cache.spec_contains_key(spec_art_key(inp).0, spec_art_key(inp).1),
    ensures
        spec_outcome(
            s,
            inp,
            cache.spec_contains_key(spec_art_key(inp).0, spec_art_key(inp).1),
        ) matches ReconcileOutcome::Active { need_art } ==> !need_art,
{
}

/// Absence of title or artist on a tick clears identity, anchor and
/// position state and reports a clear, whatever went before.
pub proof fn lemma_absence_clears(s: SpecState, inp: SpecInput, now: int, cached: bool)
    requires
        !spec_track_present(inp),
    ensures
        spec_next(s, inp, now) == spec_idle_state(),
        spec_outcome(s, inp, cached) == ReconcileOutcome::Clear,
{
}

/// A present track whose position probe failed leaves every state
/// field unchanged: no clear, no publish, no re-anchor.
pub proof fn lemma_position_glitch_skips(s: SpecState, inp: SpecInput, now: int, cached: bool)
    requires
        spec_track_present(inp),
        inp.position is None,
    ensures
        spec_next(s, inp, now) == s,
        spec_outcome(s, inp, cached) == ReconcileOutcome::Skip,
{
}

} // verus!
