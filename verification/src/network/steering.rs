//! Band steering: which visible access point is the best alternative, and
//! when it has been best for long enough to ask for a scan.

use crate::config::structs::WifiConfig;
use crate::network::nm::AccessPoint;
use vstd::prelude::*;

verus! {

/// An access point that scored higher than the current one.
#[derive(Debug, Default)]
pub struct RoamCandidate {
    pub bssid: String,
    pub score: i64,
    pub consecutive_ticks: u32,
}

/// A roam candidate as a mathematical value.
pub struct RoamModel {
    pub bssid: Seq<char>,
    pub score: int,
    pub consecutive_ticks: u32,
}

impl View for RoamCandidate {
    type V = RoamModel;

    open spec fn view(&self) -> RoamModel {
        RoamModel {
            bssid: self.bssid@,
            score: self.score as int,
            consecutive_ticks: self.consecutive_ticks,
        }
    }
}

/// The view of a candidate that may be absent.
pub open spec fn candidate_view(candidate: Option<RoamCandidate>) -> Option<RoamModel> {
    match candidate {
        Some(c) => Some(c@),
        None => None,
    }
}

/// Whether `ap` is an alternative to `current`: the same network, another
/// access point, and a signal that reaches the floor of its band.
pub open spec fn eligible(current: AccessPoint, ap: AccessPoint, config: WifiConfig) -> bool {
    &&& ap.ssid@ == current.ssid@
    &&& ap.bssid@ != current.bssid@
    &&& ap.usable(config.min_signal_2g_dbm, config.min_signal_5g_dbm, config.min_signal_6g_dbm)
}

/// The score of `ap` under `config`.
pub open spec fn score_under(ap: AccessPoint, config: WifiConfig) -> int {
    ap.score_of(config.band_bias_5ghz, config.band_bias_6ghz)
}

/// Whether the access point at `at` is the best alternative: it is eligible,
/// no eligible one scores higher, and of those that score the same it is the
/// last.
pub open spec fn is_best(
    current: AccessPoint,
    visible: Seq<AccessPoint>,
    config: WifiConfig,
    at: int,
) -> bool {
    &&& 0 <= at < visible.len()
    &&& eligible(current, visible[at], config)
    &&& forall|j: int|
        0 <= j < visible.len() && eligible(current, #[trigger] visible[j], config) ==> {
            ||| score_under(visible[j], config) < score_under(visible[at], config)
            ||| score_under(visible[j], config) == score_under(visible[at], config) && j <= at
        }
}

/// The place of the best alternative to `current` among `visible`, if there
/// is any alternative.
pub open spec fn best_of(
    current: AccessPoint,
    visible: Seq<AccessPoint>,
    config: WifiConfig,
) -> Option<int> {
    if exists|at: int| is_best(current, visible, config, at) {
        Some(choose|at: int| is_best(current, visible, config, at))
    } else {
        None
    }
}

/// There is at most one best alternative.
pub proof fn lemma_best_unique(
    current: AccessPoint,
    visible: Seq<AccessPoint>,
    config: WifiConfig,
    a: int,
    b: int,
)
    requires
        is_best(current, visible, config, a),
        is_best(current, visible, config, b),
    ensures
        a == b,
{
}

/// Finds the best alternative to `current` among `visible`.
pub fn best_candidate(current: &AccessPoint, visible: &Vec<AccessPoint>, config: &WifiConfig) -> (best:
    Option<usize>)
    ensures
        match best {
            Some(at) => is_best(*current, visible@, *config, at as int),
            None => forall|j: int|
                0 <= j < visible@.len() ==> !eligible(*current, #[trigger] visible@[j], *config),
        },
        best_of(*current, visible@, *config) == match best {
            Some(at) => Some(at as int),
            None => None::<int>,
        },
{
    let mut best: Option<usize> = None;
    let mut best_score: i64 = 0;
    let mut i: usize = 0;
    while i < visible.len()
        invariant
            i <= visible@.len(),
            match best {
                Some(at) => is_best(*current, visible@.take(i as int), *config, at as int)
                    && best_score == score_under(visible@[at as int], *config),
                None => forall|j: int|
                    0 <= j < i ==> !eligible(*current, #[trigger] visible@[j], *config),
            },
        decreases visible@.len() - i,
    {
        let ap = &visible[i];
        let ghost seen = visible@.take(i as int);
        let ghost next = visible@.take(i + 1);
        assert(forall|j: int| 0 <= j < i ==> seen[j] == next[j]);
        let same_ssid: bool = ap.ssid == current.ssid;
        let other_bssid: bool = ap.bssid != current.bssid;
        if same_ssid && other_bssid && ap.signal_usable(
            config.min_signal_2g_dbm,
            config.min_signal_5g_dbm,
            config.min_signal_6g_dbm,
        ) {
            let score: i64 = ap.wide_score(config.band_bias_5ghz, config.band_bias_6ghz);
            let better: bool = match best {
                Some(_) => score >= best_score,
                None => true,
            };
            if better {
                best = Some(i);
                best_score = score;
                assert(is_best(*current, next, *config, i as int)) by {
                    assert forall|j: int|
                        0 <= j < next.len() && eligible(
                            *current,
                            #[trigger] next[j],
                            *config,
                        ) implies score_under(next[j], *config) < score_under(
                        next[i as int],
                        *config,
                    ) || (score_under(next[j], *config) == score_under(next[i as int], *config)
                        && j <= i) by {
                        if j < i {
                            assert(eligible(*current, seen[j], *config));
                        }
                    }
                }
            } else {
                let ghost at = best.unwrap() as int;
                assert(is_best(*current, next, *config, at)) by {
                    assert forall|j: int|
                        0 <= j < next.len() && eligible(
                            *current,
                            #[trigger] next[j],
                            *config,
                        ) implies score_under(next[j], *config) < score_under(next[at], *config)
                        || (score_under(next[j], *config) == score_under(next[at], *config) && j
                        <= at) by {
                        if j < i {
                            assert(eligible(*current, seen[j], *config));
                        }
                    }
                }
            }
        } else {
            match best {
                Some(at) => {
                    assert(is_best(*current, next, *config, at as int)) by {
                        assert forall|j: int|
                            0 <= j < next.len() && eligible(
                                *current,
                                #[trigger] next[j],
                                *config,
                            ) implies score_under(next[j], *config) < score_under(
                            next[at as int],
                            *config,
                        ) || (score_under(next[j], *config) == score_under(
                            next[at as int],
                            *config,
                        ) && j <= at) by {
                            if j < i {
                                assert(eligible(*current, seen[j], *config));
                            }
                        }
                    }
                },
                None => {},
            }
        }
        i += 1;
    }
    proof {
        assert(visible@.take(visible@.len() as int) =~= visible@);
        match best {
            Some(at) => {
                let chosen = choose|c: int| is_best(*current, visible@, *config, c);
                lemma_best_unique(*current, visible@, *config, at as int, chosen);
            },
            None => {
                assert forall|c: int| !is_best(*current, visible@, *config, c) by {
                    if 0 <= c < visible@.len() {
                        assert(!eligible(*current, visible@[c], *config));
                    }
                }
            },
        }
    }
    best
}

/// One tick of roam hysteresis. `best` is the best alternative's BSSID and
/// score, if there is an alternative. An alternative that scores higher than
/// the current access point is counted, from one again where it is not the
/// one counted so far; once the count reaches `hysteresis_ticks` the
/// candidate is dropped and a scan is to be requested. Without such an
/// alternative the candidate is dropped.
pub open spec fn steered(
    candidate: Option<RoamModel>,
    best: Option<(Seq<char>, int)>,
    current_score: int,
    hysteresis_ticks: u32,
) -> (Option<RoamModel>, bool) {
    match best {
        Some((bssid, score)) => if score > current_score {
            let ticks = match candidate {
                Some(c) => if c.bssid == bssid { c.consecutive_ticks + 1 } else { 1 },
                None => 1,
            };
            if ticks >= hysteresis_ticks {
                (None, true)
            } else {
                (Some(RoamModel { bssid, score, consecutive_ticks: ticks as u32 }), false)
            }
        } else {
            (None, false)
        },
        None => (None, false),
    }
}

/// One tick of roam hysteresis; returns whether a scan is to be requested.
pub fn steer(
    candidate: &mut Option<RoamCandidate>,
    best: Option<(&String, i64)>,
    current_score: i64,
    hysteresis_ticks: u32,
) -> (scan: bool)
    ensures
        (candidate_view(*final(candidate)), scan) == steered(
            candidate_view(*old(candidate)),
            match best {
                Some((bssid, score)) => Some((bssid@, score as int)),
                None => None,
            },
            current_score as int,
            hysteresis_ticks,
        ),
{
    let (bssid, score): (&String, i64) = match best {
        Some(pair) => pair,
        None => {
            *candidate = None;
            return false;
        },
    };
    if score <= current_score {
        *candidate = None;
        return false;
    }
    let ticks: u64 = match candidate {
        Some(c) => if c.bssid == *bssid { c.consecutive_ticks as u64 + 1 } else { 1 },
        None => 1,
    };
    if ticks >= hysteresis_ticks as u64 {
        *candidate = None;
        true
    } else {
        *candidate = Some(
            RoamCandidate { bssid: bssid.clone(), score, consecutive_ticks: ticks as u32 },
        );
        false
    }
}

/// The candidate after `ticks` ticks on each of which `bssid` was the best
/// alternative and scored higher than the current access point.
pub open spec fn steered_for(
    candidate: Option<RoamModel>,
    bssid: Seq<char>,
    scores: Seq<(int, int)>,
    hysteresis_ticks: u32,
) -> Option<RoamModel>
    decreases scores.len(),
{
    if scores.len() == 0 {
        candidate
    } else {
        steered(
            steered_for(candidate, bssid, scores.drop_last(), hysteresis_ticks),
            Some((bssid, scores.last().0)),
            scores.last().1,
            hysteresis_ticks,
        ).0
    }
}

/// Roam hysteresis is exact. Starting without a candidate, an alternative
/// that is the best and scores higher than the current access point on
/// `hysteresis_ticks` consecutive ticks makes the last of these ticks, and
/// none before it, ask for a scan, and leaves no candidate behind. Each
/// element of `scores` holds the alternative's and the current access point's
/// score on one tick.
pub proof fn lemma_roam_after_hysteresis(
    bssid: Seq<char>,
    scores: Seq<(int, int)>,
    hysteresis_ticks: u32,
)
    requires
        hysteresis_ticks >= 1,
        scores.len() == hysteresis_ticks,
        forall|i: int| 0 <= i < scores.len() ==> (#[trigger] scores[i]).0 > scores[i].1,
    ensures
        forall|i: int|
            0 <= i < scores.len() - 1 ==> !steered(
                #[trigger] steered_for(None, bssid, scores.take(i), hysteresis_ticks),
                Some((bssid, scores[i].0)),
                scores[i].1,
                hysteresis_ticks,
            ).1,
        steered(
            steered_for(None, bssid, scores.drop_last(), hysteresis_ticks),
            Some((bssid, scores.last().0)),
            scores.last().1,
            hysteresis_ticks,
        ) == (None::<RoamModel>, true),
{
    assert forall|i: int| 0 <= i < scores.len() - 1 implies !steered(
        #[trigger] steered_for(None, bssid, scores.take(i), hysteresis_ticks),
        Some((bssid, scores[i].0)),
        scores[i].1,
        hysteresis_ticks,
    ).1 by {
        lemma_counting(bssid, scores, hysteresis_ticks, i);
    }
    lemma_counting(bssid, scores, hysteresis_ticks, scores.len() - 1);
    assert(scores.take(scores.len() - 1) =~= scores.drop_last());
}

/// After `n` ticks that did not complete the hysteresis, the candidate has
/// been counted `n` times.
proof fn lemma_counting(bssid: Seq<char>, scores: Seq<(int, int)>, hysteresis_ticks: u32, n: int)
    requires
        0 <= n < scores.len(),
        n < hysteresis_ticks,
        forall|i: int| 0 <= i < scores.len() ==> (#[trigger] scores[i]).0 > scores[i].1,
    ensures
        n == 0 ==> steered_for(None, bssid, scores.take(n), hysteresis_ticks).is_none(),
        n > 0 ==> steered_for(None, bssid, scores.take(n), hysteresis_ticks) == Some(
            RoamModel { bssid, score: scores[n - 1].0, consecutive_ticks: n as u32 },
        ),
    decreases n,
{
    if n == 0 {
        assert(scores.take(0) =~= Seq::<(int, int)>::empty());
    } else {
        lemma_counting(bssid, scores, hysteresis_ticks, n - 1);
        assert(scores.take(n).drop_last() =~= scores.take(n - 1));
        assert(scores.take(n).last() == scores[n - 1]);
    }
}

/// When another access point becomes the best alternative in the middle of a
/// count, the count starts again at one.
pub proof fn lemma_new_best_restarts(
    candidate: RoamModel,
    bssid: Seq<char>,
    score: int,
    current_score: int,
    hysteresis_ticks: u32,
)
    requires
        candidate.bssid != bssid,
        score > current_score,
        hysteresis_ticks > 1,
    ensures
        steered(Some(candidate), Some((bssid, score)), current_score, hysteresis_ticks) == (
            Some(RoamModel { bssid, score, consecutive_ticks: 1 }),
            false,
        ),
{
}

/// The candidate is dropped whenever the current access point scores at least
/// as high as the best alternative.
pub proof fn lemma_no_better_clears(
    candidate: Option<RoamModel>,
    best: Option<(Seq<char>, int)>,
    current_score: int,
    hysteresis_ticks: u32,
)
    requires
        match best {
            Some((_, score)) => current_score >= score,
            None => true,
        },
    ensures
        steered(candidate, best, current_score, hysteresis_ticks) == (None::<RoamModel>, false),
{
}

} // verus!
