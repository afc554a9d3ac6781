//! The integer and naming side of the leg inverse kinematics: its errors,
//! the checks of the joint names that a kinematics model reports, and the
//! control of the damped least squares (Levenberg-Marquardt) iteration, which
//! decides from each evaluation and each step whether to go on and, when it
//! stops, with which status and after how many updates of the joint angles.
use vstd::prelude::*;

use crate::controller::find_first;
use crate::settings::SettingKey;
use crate::text::{chars_of, decimal_string, decimal_text, trim, trim_range};

verus! {

/// The number of active joints of one leg.
pub const IK_JOINT_COUNT: usize = 5;

/// Why a kinematics model could not evaluate a leg configuration.
#[derive(Clone, Debug, PartialEq, Eq)]
pub struct KinematicsError {
    message: String,
}

impl View for KinematicsError {
    type V = Seq<char>;

    closed spec fn view(&self) -> Seq<char> {
        self.message@
    }
}

impl KinematicsError {
    /// An error with the text `message`.
    pub fn new(message: &str) -> (res: Self)
        ensures
            res@ == message@,
    {
        KinematicsError { message: String::from_str(message) }
    }

    /// The text of the error.
    pub fn message(&self) -> (res: &str)
        ensures
            res@ == self@,
    {
        self.message.as_str()
    }
}

/// Why the inverse kinematics cannot go on: invalid input, a failed model
/// evaluation or a numerical breakdown.
#[derive(Clone, Debug, PartialEq)]
pub enum IkError {
    InvalidSettings(&'static str),
    InvalidPose(&'static str),
    InvalidJointName { index: usize },
    InvalidJointAngles,
    InvalidPreviousJointAngles,
    InvalidControlPeriod,
    InvalidJointLimit { index: usize },
    InitialAngleOutOfRange { index: usize },
    PreviousAngleOutOfRange { index: usize },
    DuplicateJointName(String),
    Kinematics(KinematicsError),
    InvalidKinematicEvaluation,
    LinearSolveFailed,
    NonFiniteComputation,
}

impl IkError {
    /// The human-readable text of the error.
    pub open spec fn text(self) -> Seq<char> {
        match self {
            IkError::InvalidSettings(name) => "IK設定値が不正です: "@ + name@,
            IkError::InvalidPose(name) => name@ + "の位置と姿勢は有限値でなければなりません"@,
            IkError::InvalidJointName { index } => "関節"@ + decimal_text(index as nat)
                + "の名前が空です"@,
            IkError::InvalidJointAngles => "初期関節角はすべて有限値でなければなりません"@,
            IkError::InvalidPreviousJointAngles =>
                "前周期の関節角はすべて有限値でなければなりません"@,
            IkError::InvalidControlPeriod => "制御周期は有限な正の値でなければなりません"@,
            IkError::InvalidJointLimit { index } => "関節"@ + decimal_text(index as nat)
                + "の可動範囲が不正です"@,
            IkError::InitialAngleOutOfRange { index } => "関節"@ + decimal_text(index as nat)
                + "の初期角度が可動範囲外です"@,
            IkError::PreviousAngleOutOfRange { index } => "関節"@ + decimal_text(index as nat)
                + "の前周期の角度が可動範囲外です"@,
            IkError::DuplicateJointName(name) => "関節名が重複しています: "@ + name@,
            IkError::Kinematics(error) => "運動学モデルの評価に失敗しました: "@ + error@,
            IkError::InvalidKinematicEvaluation =>
                "運動学モデルが有限なPoseとヤコビアンを返しませんでした"@,
            IkError::LinearSolveFailed => "LM正規方程式をCholesky分解できませんでした"@,
            IkError::NonFiniteComputation => "IK反復中に非有限値が発生しました"@,
        }
    }

    /// The human-readable text of the error.
    pub fn message(&self) -> (res: String)
        ensures
            res@ == self.text(),
    {
        match self {
            IkError::InvalidSettings(name) => {
                let mut res = String::from_str("IK設定値が不正です: ");
                res.append(name);
                res
            },
            IkError::InvalidPose(name) => {
                let mut res = String::from_str(name);
                res.append("の位置と姿勢は有限値でなければなりません");
                res
            },
            IkError::InvalidJointName { index } => joint_message(*index, "の名前が空です"),
            IkError::InvalidJointAngles => String::from_str(
                "初期関節角はすべて有限値でなければなりません",
            ),
            IkError::InvalidPreviousJointAngles => String::from_str(
                "前周期の関節角はすべて有限値でなければなりません",
            ),
            IkError::InvalidControlPeriod => String::from_str(
                "制御周期は有限な正の値でなければなりません",
            ),
            IkError::InvalidJointLimit { index } => joint_message(*index, "の可動範囲が不正です"),
            IkError::InitialAngleOutOfRange { index } => joint_message(
                *index,
                "の初期角度が可動範囲外です",
            ),
            IkError::PreviousAngleOutOfRange { index } => joint_message(
                *index,
                "の前周期の角度が可動範囲外です",
            ),
            IkError::DuplicateJointName(name) => {
                let mut res = String::from_str("関節名が重複しています: ");
                res.append(name.as_str());
                res
            },
            IkError::Kinematics(error) => {
                let mut res = String::from_str("運動学モデルの評価に失敗しました: ");
                res.append(error.message());
                res
            },
            IkError::InvalidKinematicEvaluation => String::from_str(
                "運動学モデルが有限なPoseとヤコビアンを返しませんでした",
            ),
            IkError::LinearSolveFailed => String::from_str(
                "LM正規方程式をCholesky分解できませんでした",
            ),
            IkError::NonFiniteComputation => String::from_str(
                "IK反復中に非有限値が発生しました",
            ),
        }
    }
}

/// `関節<index><rest>`.
fn joint_message(index: usize, rest: &str) -> (res: String)
    ensures
        res@ == "関節"@ + decimal_text(index as nat) + rest@,
{
    let mut res = String::from_str("関節");
    res.append(decimal_string(index).as_str());
    res.append(rest);
    res
}

/// Whether the name of joint `i` is refused: blank, or equal to the name of
/// an earlier joint.
pub open spec fn joint_name_faulty(names: Seq<String>, i: int) -> bool {
    ||| trim(names[i]@).len() == 0
    ||| exists|j: int| 0 <= j < i && (#[trigger] names[j])@ == names[i]@
}

/// Whether `e` reports the fault of the name of joint `i`.
pub open spec fn reports_joint_name_fault(e: IkError, names: Seq<String>, i: int) -> bool {
    if trim(names[i]@).len() == 0 {
        e == IkError::InvalidJointName { index: i as usize }
    } else {
        e matches IkError::DuplicateJointName(name) && name@ == names[i]@
    }
}

/// Checks the joint names of a kinematics model in order: the first name
/// that is empty or white space only gives `InvalidJointName` with its
/// index, the first that repeats an earlier name `DuplicateJointName`.
pub fn validate_joint_names(names: &[String]) -> (res: Result<(), IkError>)
    ensures
        match res {
            Ok(()) => forall|i: int| 0 <= i < names@.len() ==> !joint_name_faulty(names@, i),
            Err(e) => exists|i: int|
                0 <= i < names@.len() && #[trigger] joint_name_faulty(names@, i) && (forall|j: int|
                    0 <= j < i ==> !joint_name_faulty(names@, j)) && reports_joint_name_fault(
                    e,
                    names@,
                    i,
                ),
        },
{
    let mut index: usize = 0;
    while index < names.len()
        invariant
            index <= names@.len(),
            forall|j: int| 0 <= j < index ==> !joint_name_faulty(names@, j),
        decreases names@.len() - index,
    {
        let chars = chars_of(names[index].as_str());
        let (a, b) = trim_range(&chars, 0, chars.len());
        proof {
            assert(chars@.subrange(0, chars@.len() as int) =~= names@[index as int]@);
        }
        if a == b {
            proof {
                assert(joint_name_faulty(names@, index as int));
            }
            return Err(IkError::InvalidJointName { index });
        }
        match find_first(names, &names[index]) {
            Some(f) => {
                if f != index {
                    proof {
                        assert(names@[f as int]@ == names@[index as int]@);
                        assert(joint_name_faulty(names@, index as int));
                    }
                    return Err(IkError::DuplicateJointName(names[index].clone()));
                }
            },
            None => {},
        }
        index = index + 1;
    }
    Ok(())
}

/// The outcome of the real-valued checks of a solver request that come
/// before the joint names, `true` (or `None`) where the request passes.
#[derive(Clone, Copy, Debug, PartialEq, Eq, Structural)]
pub struct IkInputChecks {
    /// The first setting out of its range, as `settings::invalid_field`
    /// finds it.
    pub invalid_setting: Option<SettingKey>,
    /// Every coordinate of the waist pose is finite.
    pub waist_pose_finite: bool,
    /// Every coordinate of the target foot pose is finite.
    pub target_pose_finite: bool,
    /// Every initial joint angle is finite.
    pub initial_angles_finite: bool,
    /// The control period is finite and positive.
    pub control_period_positive: bool,
    /// Every previous joint angle, if there are any, is finite.
    pub previous_angles_finite: bool,
}

/// The outcome of the real-valued checks of one joint against its range.
#[derive(Clone, Copy, Debug, PartialEq, Eq, Structural)]
pub struct JointRangeChecks {
    /// Both bounds are finite and the minimum is below the maximum.
    pub limit_valid: bool,
    /// The initial angle lies within the range.
    pub initial_in_range: bool,
    /// The previous angle, if there is one, lies within the range.
    pub previous_in_range: bool,
}

/// Whether one of the checks before the joint names fails.
pub open spec fn input_faulty(checks: IkInputChecks) -> bool {
    ||| checks.invalid_setting is Some
    ||| !checks.waist_pose_finite
    ||| !checks.target_pose_finite
    ||| !checks.initial_angles_finite
    ||| !checks.control_period_positive
    ||| !checks.previous_angles_finite
}

/// Whether `e` reports the first failed check before the joint names.
pub open spec fn reports_input_fault(e: IkError, checks: IkInputChecks) -> bool {
    if checks.invalid_setting is Some {
        e matches IkError::InvalidSettings(name) && name@ == checks.invalid_setting->0.key_text()
    } else if !checks.waist_pose_finite {
        e matches IkError::InvalidPose(name) && name@ == "waist_pose_in_world"@
    } else if !checks.target_pose_finite {
        e matches IkError::InvalidPose(name) && name@ == "target_foot_pose_in_world"@
    } else if !checks.initial_angles_finite {
        e == IkError::InvalidJointAngles
    } else if !checks.control_period_positive {
        e == IkError::InvalidControlPeriod
    } else {
        e == IkError::InvalidPreviousJointAngles
    }
}

/// Whether a joint fails one of its range checks.
pub open spec fn range_faulty(range: JointRangeChecks) -> bool {
    !range.limit_valid || !range.initial_in_range || !range.previous_in_range
}

/// Whether `e` reports the first failed range check of joint `index`.
pub open spec fn reports_range_fault(e: IkError, range: JointRangeChecks, index: int) -> bool {
    if !range.limit_valid {
        e == IkError::InvalidJointLimit { index: index as usize }
    } else if !range.initial_in_range {
        e == IkError::InitialAngleOutOfRange { index: index as usize }
    } else {
        e == IkError::PreviousAngleOutOfRange { index: index as usize }
    }
}

/// Refuses a solver request at its first failed check: the settings, the
/// waist pose, the target pose, the initial angles, the control period and
/// the previous angles, then the joint names in order as
/// `validate_joint_names` checks them, then the joints in order, each with
/// its range, its initial angle and its previous angle.
pub fn validate_inputs(checks: &IkInputChecks, names: &[String], ranges: &[JointRangeChecks]) -> (res:
    Result<(), IkError>)
    ensures
        res is Ok <==> !input_faulty(*checks) && (forall|i: int|
            0 <= i < names@.len() ==> !joint_name_faulty(names@, i)) && (forall|i: int|
            0 <= i < ranges@.len() ==> !range_faulty(#[trigger] ranges@[i])),
        input_faulty(*checks) ==> res is Err && reports_input_fault(res->Err_0, *checks),
        !input_faulty(*checks) && (exists|i: int|
            0 <= i < names@.len() && joint_name_faulty(names@, i)) ==> res is Err && exists|i: int|
            0 <= i < names@.len() && #[trigger] joint_name_faulty(names@, i) && (forall|j: int|
                0 <= j < i ==> !joint_name_faulty(names@, j)) && reports_joint_name_fault(
                res->Err_0,
                names@,
                i,
            ),
        !input_faulty(*checks) && (forall|i: int|
            0 <= i < names@.len() ==> !joint_name_faulty(names@, i)) && (exists|i: int|
            0 <= i < ranges@.len() && range_faulty(ranges@[i])) ==> res is Err && exists|i: int|
            0 <= i < ranges@.len() && #[trigger] range_faulty(ranges@[i]) && (forall|j: int|
                0 <= j < i ==> !range_faulty(ranges@[j])) && reports_range_fault(
                res->Err_0,
                ranges@[i],
                i,
            ),
{
    if let Some(key) = checks.invalid_setting {
        return Err(IkError::InvalidSettings(key.name()));
    }
    if !checks.waist_pose_finite {
        return Err(IkError::InvalidPose("waist_pose_in_world"));
    }
    if !checks.target_pose_finite {
        return Err(IkError::InvalidPose("target_foot_pose_in_world"));
    }
    if !checks.initial_angles_finite {
        return Err(IkError::InvalidJointAngles);
    }
    if !checks.control_period_positive {
        return Err(IkError::InvalidControlPeriod);
    }
    if !checks.previous_angles_finite {
        return Err(IkError::InvalidPreviousJointAngles);
    }
    validate_joint_names(names)?;
    let mut index: usize = 0;
    while index < ranges.len()
        invariant
            index <= ranges@.len(),
            !input_faulty(*checks),
            forall|i: int| 0 <= i < names@.len() ==> !joint_name_faulty(names@, i),
            forall|j: int| 0 <= j < index ==> !range_faulty(#[trigger] ranges@[j]),
        decreases ranges@.len() - index,
    {
        let range = ranges[index];
        proof {
            if range_faulty(range) {
                assert(range_faulty(ranges@[index as int]));
            }
        }
        if !range.limit_valid {
            return Err(IkError::InvalidJointLimit { index });
        }
        if !range.initial_in_range {
            return Err(IkError::InitialAngleOutOfRange { index });
        }
        if !range.previous_in_range {
            return Err(IkError::PreviousAngleOutOfRange { index });
        }
        index = index + 1;
    }
    Ok(())
}

/// Why the iteration ended.
#[derive(Clone, Copy, Debug, PartialEq, Eq, Structural)]
pub enum IkStatus {
    /// The weighted residual fell to the pose tolerance.
    Converged,
    /// The applied step fell to the step tolerance.
    StepTooSmall,
    /// The iteration budget was spent.
    MaxIterations,
}

/// What the solver reports after an evaluation or an update.
pub enum LmEvent {
    /// The model was evaluated at the current angles; `converged` tells
    /// whether the weighted residual is within the pose tolerance.
    Evaluated { converged: bool },
    /// A step was applied to the angles; `step_small` tells whether the
    /// applied step is within the step tolerance.
    Updated { step_small: bool },
}

/// What the solver does next.
#[derive(Clone, Copy, Debug, PartialEq, Eq, Structural)]
pub enum LmAction {
    /// Evaluate the model at the current angles.
    Evaluate,
    /// Compute the damped step from the last evaluation and apply it.
    Step,
    /// Stop, reporting the last evaluation.
    Finish { iterations: usize, status: IkStatus },
    /// Evaluate the model at the final angles once more, then stop.
    FinishAfterEvaluation { iterations: usize, status: IkStatus },
}

/// The progress of the iteration: how many updates have been applied to the
/// joint angles, within the iteration budget.
pub struct LmProgress {
    updates: usize,
    max_iterations: usize,
}

impl LmProgress {
    #[verifier::type_invariant]
    spec fn within_budget(self) -> bool {
        self.updates <= self.max_iterations
    }

    /// The number of updates applied to the joint angles so far.
    pub closed spec fn updates(self) -> nat {
        self.updates as nat
    }

    /// The iteration budget.
    pub closed spec fn max_iterations(self) -> nat {
        self.max_iterations as nat
    }

    /// Starts an iteration with budget `max_iterations`: evaluate first, or,
    /// with no budget at all, report the initial angles as they are.
    pub fn new(max_iterations: usize) -> (res: (Self, LmAction))
        ensures
            res.0.updates() == 0,
            res.0.max_iterations() == max_iterations,
            res.1 == (if max_iterations == 0 {
                LmAction::FinishAfterEvaluation { iterations: 0, status: IkStatus::MaxIterations }
            } else {
                LmAction::Evaluate
            }),
    {
        let progress = LmProgress { updates: 0, max_iterations };
        if max_iterations == 0 {
            (
                progress,
                LmAction::FinishAfterEvaluation { iterations: 0, status: IkStatus::MaxIterations },
            )
        } else {
            (progress, LmAction::Evaluate)
        }
    }

    /// The next action after `event`.
    ///
    /// After an evaluation: stop as converged when the residual is within
    /// tolerance, else take a step. After an update (one more update
    /// counted): stop as `StepTooSmall` when the step was within tolerance,
    /// as `MaxIterations` when the budget is spent, and evaluate again
    /// otherwise. A reported iteration count is the number of updates
    /// applied.
    pub fn next(&mut self, event: LmEvent) -> (action: LmAction)
        requires
            old(self).updates() < old(self).max_iterations(),
        ensures
            final(self).max_iterations() == old(self).max_iterations(),
            final(self).updates() == old(self).updates() + (if event is Updated {
                1int
            } else {
                0int
            }),
            action == next_action(old(self).updates(), old(self).max_iterations(), event),
    {
        proof {
            use_type_invariant(&*self);
        }
        match event {
            LmEvent::Evaluated { converged } => {
                if converged {
                    LmAction::Finish { iterations: self.updates, status: IkStatus::Converged }
                } else {
                    LmAction::Step
                }
            },
            LmEvent::Updated { step_small } => {
                self.updates = self.updates + 1;
                if step_small {
                    LmAction::FinishAfterEvaluation {
                        iterations: self.updates,
                        status: IkStatus::StepTooSmall,
                    }
                } else if self.updates < self.max_iterations {
                    LmAction::Evaluate
                } else {
                    LmAction::FinishAfterEvaluation {
                        iterations: self.updates,
                        status: IkStatus::MaxIterations,
                    }
                }
            },
        }
    }
}

/// The action that follows `event` when `updates` updates have been applied
/// within a budget of `max_iterations`.
pub open spec fn next_action(updates: nat, max_iterations: nat, event: LmEvent) -> LmAction {
    match event {
        LmEvent::Evaluated { converged } => if converged {
            LmAction::Finish { iterations: updates as usize, status: IkStatus::Converged }
        } else {
            LmAction::Step
        },
        LmEvent::Updated { step_small } => if step_small {
            LmAction::FinishAfterEvaluation {
                iterations: (updates + 1) as usize,
                status: IkStatus::StepTooSmall,
            }
        } else if updates + 1 < max_iterations {
            LmAction::Evaluate
        } else {
            LmAction::FinishAfterEvaluation {
                iterations: (updates + 1) as usize,
                status: IkStatus::MaxIterations,
            }
        },
    }
}

/// Events arrive only while budget is left (the first evaluation of a
/// non-empty budget, and every evaluation and update that an action asks
/// for). Then the reported iteration count is the number of updates applied
/// and never exceeds the budget; it is the budget whenever the budget ran
/// out; and the next event is again one with budget left.
pub proof fn lemma_iterations_within_budget(updates: usize, max_iterations: usize, event: LmEvent)
    requires
        updates < max_iterations,
    ensures
        match next_action(updates as nat, max_iterations as nat, event) {
            LmAction::Finish { iterations, status } => iterations == updates && iterations
                <= max_iterations && status == IkStatus::Converged,
            LmAction::FinishAfterEvaluation { iterations, status } => iterations == updates + 1
                && iterations <= max_iterations && (status == IkStatus::MaxIterations ==> iterations
                == max_iterations),
            LmAction::Step => updates < max_iterations && event is Evaluated,
            LmAction::Evaluate => updates + 1 < max_iterations && event is Updated,
        },
{
}

/// The joint names pass exactly when every name has a non-blank character
/// and no two joints, at any two positions, share a name.
pub proof fn lemma_joint_names_valid_iff_distinct(names: Seq<String>)
    ensures
        (forall|i: int| 0 <= i < names.len() ==> !joint_name_faulty(names, i)) <==> (forall|i: int|
            0 <= i < names.len() ==> trim(#[trigger] names[i]@).len() > 0) && (forall|i: int, j: int|
            0 <= i < j < names.len() ==> (#[trigger] names[i])@ != (#[trigger] names[j])@),
{
    if forall|i: int| 0 <= i < names.len() ==> !joint_name_faulty(names, i) {
        assert forall|i: int, j: int| 0 <= i < j < names.len() implies (#[trigger] names[i])@ != (
        #[trigger] names[j])@ by {
            assert(!joint_name_faulty(names, j));
        }
        assert forall|i: int| 0 <= i < names.len() implies trim(#[trigger] names[i]@).len() > 0 by {
            assert(!joint_name_faulty(names, i));
        }
    }
}

/// A non-blank name equal to the name of any earlier joint, not only the
/// one just before it, is a fault reported as `DuplicateJointName` with
/// that name.
pub proof fn lemma_repeated_name_is_duplicate(names: Seq<String>, i: int, j: int, e: IkError)
    requires
        0 <= i < j < names.len(),
        names[i]@ == names[j]@,
        trim(names[j]@).len() > 0,
        reports_joint_name_fault(e, names, j),
    ensures
        joint_name_faulty(names, j),
        e matches IkError::DuplicateJointName(name) && name@ == names[i]@,
{
}

} // verus!
