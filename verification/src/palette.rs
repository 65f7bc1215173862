//! Palette hue generation.
//!
//! Hues are drawn from a seeded stream, and a candidate too close (on the
//! color circle) to the hue accepted just before it is rejected and drawn
//! again.  Every retry loop is bounded, so generation either returns hues
//! with the promised spacing or reports that the spacing cannot be met.

use crate::fixed::abs_s;
use crate::rng::{stream_next_s, stream_out_s, SeedStream};
use vstd::prelude::*;

verus! {

/// A full turn, in micro-degrees.
pub const HUE_FULL: i64 = 360_000_000;

/// The default minimum angular distance between neighbouring hues.
pub const HUE_MIN_SEP: i64 = 60_000_000;

/// How many draws a single hue may reject before generation gives up.
pub const HUE_RETRY_CAP: u32 = 100;

/// Angular distance of two hues on the color circle, in micro-degrees.
pub open spec fn circ_dist_s(a: int, b: int) -> int {
    let d = abs_s(a - b);
    if d <= (HUE_FULL as int) - d {
        d
    } else {
        (HUE_FULL as int) - d
    }
}

/// The hue drawn when stepping away from state `s`.
pub open spec fn hue_draw_s(s: int) -> i64 {
    (stream_out_s(s) % (HUE_FULL as int)) as i64
}

/// Rejection sampling of one hue: draw until the candidate is at least
/// `min_sep` away from `prev` on the circle, giving up after `tries` draws.
/// On success, the accepted hue and the stream state after it.
#[verifier::opaque]
pub open spec fn pick_hue_s(s: int, prev: int, min_sep: int, tries: nat) -> Option<(i64, int)>
    decreases tries,
{
    if tries == 0 {
        None
    } else {
        let h = hue_draw_s(s);
        let ns = stream_next_s(s);
        if circ_dist_s(h as int, prev) >= min_sep {
            Some((h, ns))
        } else {
            pick_hue_s(ns, prev, min_sep, (tries - 1) as nat)
        }
    }
}

/// Hue generation continued from a partial palette: `acc` holds the hues
/// accepted so far, `prev` the one the next draw must keep away from.
#[verifier::opaque]
pub open spec fn hues_from_s(
    s: int,
    prev: int,
    remaining: nat,
    min_sep: int,
    acc: Seq<i64>,
) -> Option<(Seq<i64>, int)>
    decreases remaining,
{
    if remaining == 0 {
        Some((acc, s))
    } else {
        match pick_hue_s(s, prev, min_sep, HUE_RETRY_CAP as nat) {
            None => None,
            Some(p) => hues_from_s(p.1, p.0 as int, (remaining - 1) as nat, min_sep, acc.push(p.0)),
        }
    }
}

/// The palette hues generated from state `s`: `n` hues, each at least
/// `min_sep` from its predecessor (the first keeps that distance from hue
/// zero), together with the state left behind.
pub open spec fn palette_hues_s(s: int, n: nat, min_sep: int) -> Option<(Seq<i64>, int)> {
    hues_from_s(s, 0, n, min_sep, Seq::empty())
}

/// Angular distance of two hues on the color circle.
pub fn circ_dist(a: i64, b: i64) -> (r: i64)
    requires
        0 <= a < HUE_FULL,
        0 <= b < HUE_FULL,
    ensures
        r == circ_dist_s(a as int, b as int),
{
    let d: i64 = if a >= b {
        a - b
    } else {
        b - a
    };
    if d <= HUE_FULL - d {
        d
    } else {
        HUE_FULL - d
    }
}

/// Draw one hue at least `min_sep` away from `prev`, retrying at most
/// `HUE_RETRY_CAP` times.
fn pick_hue(rng: &mut SeedStream, prev: i64, min_sep: i64) -> (r: Option<i64>)
    requires
        0 <= prev < HUE_FULL,
    ensures
        (match pick_hue_s(old(rng).state as int, prev as int, min_sep as int, HUE_RETRY_CAP as nat) {
            Some(p) => r == Some(p.0) && final(rng).state == p.1 && 0 <= p.0 < HUE_FULL,
            None => r is None,
        }),
{
    proof {
        reveal(pick_hue_s);
    }
    let ghost s_in: int = rng.state as int;
    let mut attempts: u32 = HUE_RETRY_CAP;
    let mut found: bool = false;
    let mut h: i64 = 0;
    while !found && attempts > 0
        invariant
            0 <= prev < HUE_FULL,
            found ==> 0 <= h < HUE_FULL,
            !found ==> pick_hue_s(s_in, prev as int, min_sep as int, HUE_RETRY_CAP as nat)
                == pick_hue_s(rng.state as int, prev as int, min_sep as int, attempts as nat),
            found ==> pick_hue_s(s_in, prev as int, min_sep as int, HUE_RETRY_CAP as nat)
                == Some((h, rng.state as int)),
        decreases attempts,
    {
        proof {
            reveal(pick_hue_s);
        }
        let out: u32 = rng.next_u32();
        let cand: i64 = (out % 360_000_000) as i64;
        attempts = attempts - 1;
        let d: i64 = circ_dist(cand, prev);
        if d >= min_sep {
            h = cand;
            found = true;
        }
    }
    if found {
        Some(h)
    } else {
        proof {
            reveal(pick_hue_s);
            assert(pick_hue_s(rng.state as int, prev as int, min_sep as int, 0nat) is None);
        }
        None
    }
}

/// Draw `n` palette hues, each at least `min_sep` from the hue before it.
#[verifier::rlimit(100)]
pub fn generate_hues(rng: &mut SeedStream, n: u32, min_sep: i64) -> (r: Option<Vec<i64>>)
    ensures
        (match palette_hues_s(old(rng).state as int, n as nat, min_sep as int) {
            Some(p) => r is Some && r.unwrap()@ == p.0 && final(rng).state == p.1,
            None => r is None,
        }),
{
    proof {
        reveal(hues_from_s);
    }
    let ghost s0: int = rng.state as int;
    let mut hues: Vec<i64> = Vec::new();
    let mut prev: i64 = 0;
    let mut i: u32 = 0;
    while i < n
        invariant
            i <= n,
            hues@.len() == i,
            0 <= prev < HUE_FULL,
            s0 == old(rng).state as int,
            palette_hues_s(s0, n as nat, min_sep as int) == hues_from_s(
                rng.state as int,
                prev as int,
                (n - i) as nat,
                min_sep as int,
                hues@,
            ),
        decreases n - i,
    {
        let ghost s_in: int = rng.state as int;
        let picked: Option<i64> = pick_hue(rng, prev, min_sep);
        match picked {
            None => {
                proof {
                    reveal(hues_from_s);
                    assert(hues_from_s(
                        s_in,
                        prev as int,
                        (n - i) as nat,
                        min_sep as int,
                        hues@,
                    ) is None);
                }
                return None;
            }
            Some(h) => {
                proof {
                    reveal(hues_from_s);
                    assert(hues_from_s(s_in, prev as int, (n - i) as nat, min_sep as int, hues@)
                        == hues_from_s(
                        rng.state as int,
                        h as int,
                        (n - i - 1) as nat,
                        min_sep as int,
                        hues@.push(h),
                    ));
                }
                hues.push(h);
                prev = h;
                i = i + 1;
            }
        }
    }
    Some(hues)
}

proof fn lemma_pick_hue_ok(s: int, prev: int, min_sep: int, tries: nat)
    ensures
        (match pick_hue_s(s, prev, min_sep, tries) {
            Some(p) => 0 <= p.0 < HUE_FULL && circ_dist_s(p.0 as int, prev) >= min_sep,
            None => true,
        }),
    decreases tries,
{
    reveal(pick_hue_s);
    if tries > 0 {
        lemma_pick_hue_ok(stream_next_s(s), prev, min_sep, (tries - 1) as nat)
    }
}

proof fn lemma_hues_from_sep(s: int, prev: int, remaining: nat, min_sep: int, acc: Seq<i64>)
    requires
        forall|j: int| 1 <= j < acc.len() ==> circ_dist_s(acc[j - 1] as int, (#[trigger] acc[j]) as int) >= min_sep,
        forall|j: int| 0 <= j < acc.len() ==> 0 <= #[trigger] acc[j] < HUE_FULL,
        acc.len() > 0 ==> prev == acc.last(),
    ensures
        (match hues_from_s(s, prev, remaining, min_sep, acc) {
            Some(p) => p.0.len() == acc.len() + remaining
                && (forall|j: int|
                    1 <= j < p.0.len() ==> circ_dist_s(p.0[j - 1] as int, (#[trigger] p.0[j]) as int) >= min_sep)
                && (forall|j: int| 0 <= j < p.0.len() ==> 0 <= #[trigger] p.0[j] < HUE_FULL),
            None => true,
        }),
    decreases remaining,
{
    reveal(hues_from_s);
    if remaining > 0 {
        lemma_pick_hue_ok(s, prev, min_sep, HUE_RETRY_CAP as nat);
        match pick_hue_s(s, prev, min_sep, HUE_RETRY_CAP as nat) {
            None => {}
            Some(p) => {
                let acc2 = acc.push(p.0);
                assert(circ_dist_s(p.0 as int, prev) == circ_dist_s(prev, p.0 as int));
                assert(forall|j: int|
                    1 <= j < acc2.len() ==> circ_dist_s(acc2[j - 1] as int, (#[trigger] acc2[j]) as int)
                        >= min_sep);
                lemma_hues_from_sep(p.1, p.0 as int, (remaining - 1) as nat, min_sep, acc2);
            }
        }
    }
}

/// Palette separation: in any generated palette, each hue keeps at least
/// `min_sep` of angular distance from the hue generated just before it, and
/// every hue lies on the circle.
pub proof fn lemma_palette_separation(s: int, n: nat, min_sep: int)
    ensures
        (match palette_hues_s(s, n, min_sep) {
            Some(p) => p.0.len() == n
                && (forall|j: int|
                    1 <= j < p.0.len() ==> circ_dist_s(p.0[j - 1] as int, (#[trigger] p.0[j]) as int) >= min_sep)
                && (forall|j: int| 0 <= j < p.0.len() ==> 0 <= #[trigger] p.0[j] < HUE_FULL),
            None => true,
        }),
{
    lemma_hues_from_sep(s, 0, n, min_sep, Seq::empty());
}

} // verus!
