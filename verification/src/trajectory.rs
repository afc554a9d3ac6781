//! The integer skeleton of the linear inverted pendulum (LIPM) centre of mass
//! trajectory: which checks a request must pass and in which order, and at
//! which step and sample of a walking cycle each output sample is evaluated.
//!
//! A trajectory over `n` footholds has `n - 1` walking segments. Segment `k`
//! is supported by foothold `k` and aims at foothold `k + 1`; its landing
//! position is computed when it starts. With `s` control cycles per walking
//! cycle, the first segment is sampled at cycle indices `0..s`, every later
//! one from index 1 on (the switch point belongs to the segment before it) up
//! to `s - 1`, or to 1 when `s` is 1.
use vstd::prelude::*;

verus! {

/// Why a trajectory request is refused.
#[derive(Clone, Copy, Debug, PartialEq, Eq, Structural)]
pub enum GenerationError {
    TooFewFootsteps,
    NonFiniteFootPosition,
    NonPositiveFootStepWaistHeight,
    NonPositiveFootStepWalkingTime,
    NonPositiveControlCycle,
    NonPositiveWalkingCycle,
    NonPositiveWaistHeight,
    InconsistentWaistHeight,
    InconsistentWalkingCycle,
    NonIntegralCycleRatio,
}

impl GenerationError {
    /// The human-readable text of the error.
    pub open spec fn text(self) -> Seq<char> {
        match self {
            GenerationError::TooFewFootsteps => "足位置は少なくとも 2 点必要です"@,
            GenerationError::NonFiniteFootPosition => "足位置は有限値でなければなりません"@,
            GenerationError::NonPositiveFootStepWaistHeight =>
                "foot_step.waist_height は有限な正の値でなければなりません"@,
            GenerationError::NonPositiveFootStepWalkingTime =>
                "foot_step.walking_step_time は有限な正の値でなければなりません"@,
            GenerationError::NonPositiveControlCycle => "control_cycle は正でなければなりません"@,
            GenerationError::NonPositiveWalkingCycle => "walking_cycle は正でなければなりません"@,
            GenerationError::NonPositiveWaistHeight => "waist_pos_z は正でなければなりません"@,
            GenerationError::InconsistentWaistHeight =>
                "foot_step.waist_height と waist_pos_z が一致していません"@,
            GenerationError::InconsistentWalkingCycle =>
                "foot_step.walking_step_time と walking_cycle が一致していません"@,
            GenerationError::NonIntegralCycleRatio =>
                "walking_cycle は control_cycle の整数倍でなければなりません"@,
        }
    }

    /// The human-readable text of the error.
    pub fn message(&self) -> (res: &'static str)
        ensures
            res@ == self.text(),
    {
        match self {
            GenerationError::TooFewFootsteps => "足位置は少なくとも 2 点必要です",
            GenerationError::NonFiniteFootPosition => "足位置は有限値でなければなりません",
            GenerationError::NonPositiveFootStepWaistHeight =>
                "foot_step.waist_height は有限な正の値でなければなりません",
            GenerationError::NonPositiveFootStepWalkingTime =>
                "foot_step.walking_step_time は有限な正の値でなければなりません",
            GenerationError::NonPositiveControlCycle => "control_cycle は正でなければなりません",
            GenerationError::NonPositiveWalkingCycle => "walking_cycle は正でなければなりません",
            GenerationError::NonPositiveWaistHeight => "waist_pos_z は正でなければなりません",
            GenerationError::InconsistentWaistHeight =>
                "foot_step.waist_height と waist_pos_z が一致していません",
            GenerationError::InconsistentWalkingCycle =>
                "foot_step.walking_step_time と walking_cycle が一致していません",
            GenerationError::NonIntegralCycleRatio =>
                "walking_cycle は control_cycle の整数倍でなければなりません",
        }
    }
}

/// The outcome of each real-valued check of a trajectory request, `true`
/// where the request passes it.
#[derive(Clone, Copy, Debug, PartialEq, Eq, Structural)]
pub struct GenerationChecks {
    /// Every coordinate of every foothold is finite.
    pub foot_positions_finite: bool,
    /// The foot step's waist height is finite and positive.
    pub foot_step_waist_height_positive: bool,
    /// The foot step's walking step time is finite and positive.
    pub foot_step_walking_time_positive: bool,
    /// The control cycle is finite and positive.
    pub control_cycle_positive: bool,
    /// The walking cycle is finite and positive.
    pub walking_cycle_positive: bool,
    /// The pendulum height is finite and positive.
    pub waist_height_positive: bool,
    /// The foot step's waist height equals the pendulum height.
    pub waist_heights_equal: bool,
    /// The foot step's walking step time equals the walking cycle.
    pub walking_cycles_equal: bool,
    /// The walking cycle is at least one control cycle and, within 1e-9, a
    /// whole number of them.
    pub cycle_ratio_integral: bool,
}

/// The first check, in the order of the checks, that a request with
/// `foot_count` footholds fails.
pub open spec fn first_failed_check(foot_count: usize, checks: GenerationChecks) -> Option<
    GenerationError,
> {
    if foot_count < 2 {
        Some(GenerationError::TooFewFootsteps)
    } else if !checks.foot_positions_finite {
        Some(GenerationError::NonFiniteFootPosition)
    } else if !checks.foot_step_waist_height_positive {
        Some(GenerationError::NonPositiveFootStepWaistHeight)
    } else if !checks.foot_step_walking_time_positive {
        Some(GenerationError::NonPositiveFootStepWalkingTime)
    } else if !checks.control_cycle_positive {
        Some(GenerationError::NonPositiveControlCycle)
    } else if !checks.walking_cycle_positive {
        Some(GenerationError::NonPositiveWalkingCycle)
    } else if !checks.waist_height_positive {
        Some(GenerationError::NonPositiveWaistHeight)
    } else if !checks.waist_heights_equal {
        Some(GenerationError::InconsistentWaistHeight)
    } else if !checks.walking_cycles_equal {
        Some(GenerationError::InconsistentWalkingCycle)
    } else if !checks.cycle_ratio_integral {
        Some(GenerationError::NonIntegralCycleRatio)
    } else {
        None
    }
}

/// Refuses a request with the error of the first check it fails: too few
/// footholds first, then the real-valued checks in the order of the fields
/// of `GenerationChecks`.
pub fn validate(foot_count: usize, checks: &GenerationChecks) -> (res: Result<(), GenerationError>)
    ensures
        match first_failed_check(foot_count, *checks) {
            None => res is Ok,
            Some(e) => res == Err::<(), GenerationError>(e),
        },
{
    if foot_count < 2 {
        return Err(GenerationError::TooFewFootsteps);
    }
    if !checks.foot_positions_finite {
        return Err(GenerationError::NonFiniteFootPosition);
    }
    if !checks.foot_step_waist_height_positive {
        return Err(GenerationError::NonPositiveFootStepWaistHeight);
    }
    if !checks.foot_step_walking_time_positive {
        return Err(GenerationError::NonPositiveFootStepWalkingTime);
    }
    if !checks.control_cycle_positive {
        return Err(GenerationError::NonPositiveControlCycle);
    }
    if !checks.walking_cycle_positive {
        return Err(GenerationError::NonPositiveWalkingCycle);
    }
    if !checks.waist_height_positive {
        return Err(GenerationError::NonPositiveWaistHeight);
    }
    if !checks.waist_heights_equal {
        return Err(GenerationError::InconsistentWaistHeight);
    }
    if !checks.walking_cycles_equal {
        return Err(GenerationError::InconsistentWalkingCycle);
    }
    if !checks.cycle_ratio_integral {
        return Err(GenerationError::NonIntegralCycleRatio);
    }
    Ok(())
}

/// One output sample: the walking segment it belongs to and its control
/// cycle index within that segment (its time is that index times the
/// control cycle).
#[derive(Clone, Copy, Debug, PartialEq, Eq, Structural)]
pub struct ComSample {
    pub segment: usize,
    pub sample_index: usize,
}

/// How many samples each segment after the first contributes, with `s`
/// control cycles per walking cycle.
pub open spec fn later_segment_samples(s: nat) -> nat {
    if s >= 2 {
        (s - 1) as nat
    } else {
        1
    }
}

/// The number of samples of a trajectory over `n >= 2` footholds.
pub open spec fn schedule_len(n: nat, s: nat) -> nat {
    s + ((n - 2) as nat) * later_segment_samples(s)
}

/// The segment and cycle index of sample `p`.
pub open spec fn scheduled_sample(s: nat, p: int) -> (int, int) {
    if p < s {
        (0, p)
    } else {
        let q = p - s;
        let m = later_segment_samples(s) as int;
        (1 + q / m, 1 + q % m)
    }
}

/// Where the sample with segment `k` and cycle index `j` stands.
spec fn sample_position(s: nat, k: int, j: int) -> int {
    if k == 0 {
        j
    } else {
        s + (k - 1) * later_segment_samples(s) + (j - 1)
    }
}

proof fn lemma_position_decomposes(s: nat, k: int, j: int)
    requires
        s >= 1,
        k >= 1,
        1 <= j <= later_segment_samples(s),
    ensures
        scheduled_sample(s, sample_position(s, k, j)) == (k, j),
{
    let m = later_segment_samples(s) as int;
    let q = (k - 1) * m + (j - 1);
    assert(q >= 0) by (nonlinear_arith)
        requires
            k >= 1,
            m >= 1,
            j >= 1,
            q == (k - 1) * m + (j - 1),
    ;
    vstd::arithmetic::div_mod::lemma_fundamental_div_mod_converse(q, m, k - 1, j - 1);
}

/// The samples of a trajectory over `foot_count` footholds with
/// `samples_per_cycle` control cycles per walking cycle, in output order.
///
/// The first segment is sampled at indices `0..samples_per_cycle`; each
/// later segment from index 1 to `samples_per_cycle - 1` (to 1 when there is
/// one control cycle per walking cycle), and the sequence ends with the last
/// sample of segment `foot_count - 2`, the last segment whose next foothold
/// exists.
pub fn sample_schedule(foot_count: usize, samples_per_cycle: usize) -> (res: Vec<ComSample>)
    requires
        foot_count >= 2,
        samples_per_cycle >= 1,
        schedule_len(foot_count as nat, samples_per_cycle as nat) <= usize::MAX,
    ensures
        res.len() == schedule_len(foot_count as nat, samples_per_cycle as nat),
        forall|p: int|
            #![trigger res@[p]]
            0 <= p < res.len() ==> (res@[p].segment as int, res@[p].sample_index as int)
                == scheduled_sample(samples_per_cycle as nat, p),
{
    let ghost s = samples_per_cycle as nat;
    let ghost n = foot_count as nat;
    let ghost m = later_segment_samples(s) as int;
    let mut res: Vec<ComSample> = Vec::new();
    let mut segment: usize = 0;
    let mut j: usize = 0;
    loop
        invariant_except_break
            res.len() == sample_position(s, segment as int, j as int),
            sample_position(s, segment as int, j as int) < schedule_len(n, s),
        invariant
            s == samples_per_cycle,
            n == foot_count,
            m == later_segment_samples(s),
            foot_count >= 2,
            samples_per_cycle >= 1,
            schedule_len(n, s) <= usize::MAX,
            segment <= foot_count - 2,
            segment == 0 ==> j < samples_per_cycle,
            segment > 0 ==> 1 <= j <= m,
            forall|p: int|
                #![trigger res@[p]]
                0 <= p < res.len() ==> (res@[p].segment as int, res@[p].sample_index as int)
                    == scheduled_sample(s, p),
        ensures
            res.len() == schedule_len(n, s),
            forall|p: int|
                #![trigger res@[p]]
                0 <= p < res.len() ==> (res@[p].segment as int, res@[p].sample_index as int)
                    == scheduled_sample(s, p),
        decreases schedule_len(n, s) - res.len(),
    {
        proof {
            if segment > 0 {
                lemma_position_decomposes(s, segment as int, j as int);
            }
        }
        res.push(ComSample { segment, sample_index: j });
        let ghost k = segment as int;
        if j + 1 >= samples_per_cycle {
            proof {
                if k > 0 {
                    assert(j == m);
                } else {
                    assert(j == s - 1);
                }
            }
            if segment + 2 >= foot_count {
                proof {
                    assert(k == n - 2);
                    if k > 0 {
                        assert(s + (k - 1) * m + m == s + k * m) by (nonlinear_arith);
                    }
                }
                break;
            }
            proof {
                assert(s + (k - 1) * m + m == s + k * m) by (nonlinear_arith);
                assert(s + (k + 1) * m <= s + (n - 2) * m) by (nonlinear_arith)
                    requires
                        k + 1 <= n - 2,
                        m >= 1,
                ;
                assert(s + k * m + 1 <= s + (k + 1) * m) by (nonlinear_arith)
                    requires
                        m >= 1,
                ;
            }
            segment = segment + 1;
            j = 1;
        } else {
            proof {
                if k > 0 {
                    assert(j + 1 <= m);
                    assert(s + (k - 1) * m + j < s + k * m) by (nonlinear_arith)
                        requires
                            j + 1 <= m,
                    ;
                    assert(s + k * m <= s + (n - 2) * m) by (nonlinear_arith)
                        requires
                            k <= n - 2,
                            m >= 1,
                    ;
                    assert(s + k * m < s + (n - 2) * m + 1);
                }
                assert(schedule_len(n, s) >= s) by (nonlinear_arith)
                    requires
                        schedule_len(n, s) == s + ((n - 2) as nat) * m,
                        m >= 1,
                ;
            }
            j = j + 1;
        }
    }
    res
}

/// The last cycle index at which segment `k` is sampled.
pub open spec fn last_sample_index(s: nat, k: int) -> int {
    if k == 0 {
        s - 1
    } else {
        later_segment_samples(s) as int
    }
}

/// Every sample belongs to a segment whose support foothold `k` and next
/// foothold `k + 1` both exist, and is taken at a cycle index between the
/// segment's first index (0 for the first segment, 1 for later ones) and its
/// last one, so no later than one walking cycle into the segment.
pub proof fn lemma_samples_within_footholds(n: nat, s: nat, p: int)
    requires
        n >= 2,
        s >= 1,
        0 <= p < schedule_len(n, s),
    ensures
        0 <= scheduled_sample(s, p).0,
        scheduled_sample(s, p).0 + 1 < n,
        (if scheduled_sample(s, p).0 == 0 {
            0int
        } else {
            1int
        }) <= scheduled_sample(s, p).1 <= last_sample_index(s, scheduled_sample(s, p).0),
        last_sample_index(s, scheduled_sample(s, p).0) <= s,
{
    let m = later_segment_samples(s) as int;
    let c = n - 2;
    if p >= s {
        let q = p - s;
        let d = q / m;
        let r = q % m;
        assert(q < c * m);
        vstd::arithmetic::div_mod::lemma_fundamental_div_mod(q, m);
        vstd::arithmetic::div_mod::lemma_mod_pos_bound(q, m);
        assert(d < c) by (nonlinear_arith)
            requires
                q == m * d + r,
                0 <= r < m,
                q < c * m,
                m >= 1,
        ;
        assert(d >= 0) by (nonlinear_arith)
            requires
                q == m * d + r,
                0 <= r < m,
                q >= 0,
                m >= 1,
        ;
    }
}

/// The trajectory starts with the first cycle of the first segment and ends
/// with the last cycle of segment `n - 2`, the last one whose next foothold
/// exists.
pub proof fn lemma_schedule_ends(n: nat, s: nat)
    requires
        n >= 2,
        s >= 1,
    ensures
        schedule_len(n, s) >= 1,
        scheduled_sample(s, 0) == (0int, 0int),
        scheduled_sample(s, schedule_len(n, s) - 1) == (n - 2, last_sample_index(s, n - 2)),
{
    let m = later_segment_samples(s) as int;
    let c = n - 2;
    assert(c * m >= 0) by (nonlinear_arith)
        requires
            m >= 1,
            c >= 0,
    ;
    assert(schedule_len(n, s) == s + c * m);
    if n > 2 {
        let k = n - 2;
        assert(s + c * m - 1 == s + (k - 1) * m + (m - 1)) by (nonlinear_arith)
            requires
                k == c,
        ;
        lemma_position_decomposes(s, k, m);
        assert(sample_position(s, k, m) == schedule_len(n, s) - 1);
    } else {
        assert(c * m == 0) by (nonlinear_arith)
            requires
                c == 0,
        ;
    }
}

/// Consecutive samples either advance one control cycle within a segment or
/// pass from the last cycle of a segment to cycle 1 of the next: segments are
/// visited in order, none is skipped, and the switch point is emitted once.
pub proof fn lemma_schedule_advances(n: nat, s: nat, p: int)
    requires
        n >= 2,
        s >= 1,
        0 <= p,
        p + 1 < schedule_len(n, s),
    ensures
        ({
            let cur = scheduled_sample(s, p);
            let next = scheduled_sample(s, p + 1);
            ||| cur.1 < last_sample_index(s, cur.0) && next == (cur.0, cur.1 + 1)
            ||| cur.1 == last_sample_index(s, cur.0) && next == (cur.0 + 1, 1int)
        }),
{
    let m = later_segment_samples(s) as int;
    lemma_samples_within_footholds(n, s, p);
    if p + 1 < s {
    } else if p + 1 == s {
        vstd::arithmetic::div_mod::lemma_fundamental_div_mod_converse(0, m, 0, 0);
    } else {
        let q = p - s;
        let d = q / m;
        let r = q % m;
        vstd::arithmetic::div_mod::lemma_fundamental_div_mod(q, m);
        vstd::arithmetic::div_mod::lemma_mod_pos_bound(q, m);
        if r + 1 < m {
            assert(q + 1 == d * m + (r + 1)) by (nonlinear_arith)
                requires
                    q == m * d + r,
            ;
            vstd::arithmetic::div_mod::lemma_fundamental_div_mod_converse(q + 1, m, d, r + 1);
        } else {
            assert(q + 1 == (d + 1) * m + 0) by (nonlinear_arith)
                requires
                    q == m * d + r,
                    r + 1 == m,
            ;
            vstd::arithmetic::div_mod::lemma_fundamental_div_mod_converse(q + 1, m, d + 1, 0);
        }
    }
}

/// A request is accepted exactly when it has at least two footholds and
/// passes all nine real-valued checks; otherwise it is refused with the
/// error of the first check, in the documented order, that it fails,
/// whatever the later checks say.
pub proof fn lemma_validation_outcome(foot_count: usize, checks: GenerationChecks)
    ensures
        first_failed_check(foot_count, checks) is None <==> {
            &&& foot_count >= 2
            &&& checks.foot_positions_finite
            &&& checks.foot_step_waist_height_positive
            &&& checks.foot_step_walking_time_positive
            &&& checks.control_cycle_positive
            &&& checks.walking_cycle_positive
            &&& checks.waist_height_positive
            &&& checks.waist_heights_equal
            &&& checks.walking_cycles_equal
            &&& checks.cycle_ratio_integral
        },
        foot_count < 2 ==> first_failed_check(foot_count, checks) == Some(
            GenerationError::TooFewFootsteps,
        ),
        foot_count >= 2 && !checks.foot_positions_finite ==> first_failed_check(foot_count, checks)
            == Some(GenerationError::NonFiniteFootPosition),
        foot_count >= 2 && checks.foot_positions_finite && !checks.foot_step_waist_height_positive
            ==> first_failed_check(foot_count, checks) == Some(
            GenerationError::NonPositiveFootStepWaistHeight,
        ),
        foot_count >= 2 && checks.foot_positions_finite && checks.foot_step_waist_height_positive
            && !checks.foot_step_walking_time_positive ==> first_failed_check(foot_count, checks)
            == Some(GenerationError::NonPositiveFootStepWalkingTime),
        foot_count >= 2 && checks.foot_positions_finite && checks.foot_step_waist_height_positive
            && checks.foot_step_walking_time_positive && !checks.control_cycle_positive
            ==> first_failed_check(foot_count, checks) == Some(
            GenerationError::NonPositiveControlCycle,
        ),
        foot_count >= 2 && checks.foot_positions_finite && checks.foot_step_waist_height_positive
            && checks.foot_step_walking_time_positive && checks.control_cycle_positive
            && !checks.walking_cycle_positive ==> first_failed_check(foot_count, checks) == Some(
            GenerationError::NonPositiveWalkingCycle,
        ),
        foot_count >= 2 && checks.foot_positions_finite && checks.foot_step_waist_height_positive
            && checks.foot_step_walking_time_positive && checks.control_cycle_positive
            && checks.walking_cycle_positive && !checks.waist_height_positive ==> first_failed_check(
            foot_count,
            checks,
        ) == Some(GenerationError::NonPositiveWaistHeight),
        foot_count >= 2 && checks.foot_positions_finite && checks.foot_step_waist_height_positive
            && checks.foot_step_walking_time_positive && checks.control_cycle_positive
            && checks.walking_cycle_positive && checks.waist_height_positive
            && !checks.waist_heights_equal ==> first_failed_check(foot_count, checks) == Some(
            GenerationError::InconsistentWaistHeight,
        ),
        foot_count >= 2 && checks.foot_positions_finite && checks.foot_step_waist_height_positive
            && checks.foot_step_walking_time_positive && checks.control_cycle_positive
            && checks.walking_cycle_positive && checks.waist_height_positive
            && checks.waist_heights_equal && !checks.walking_cycles_equal ==> first_failed_check(
            foot_count,
            checks,
        ) == Some(GenerationError::InconsistentWalkingCycle),
        foot_count >= 2 && checks.foot_positions_finite && checks.foot_step_waist_height_positive
            && checks.foot_step_walking_time_positive && checks.control_cycle_positive
            && checks.walking_cycle_positive && checks.waist_height_positive
            && checks.waist_heights_equal && checks.walking_cycles_equal
            && !checks.cycle_ratio_integral ==> first_failed_check(foot_count, checks) == Some(
            GenerationError::NonIntegralCycleRatio,
        ),
{
}

} // verus!
