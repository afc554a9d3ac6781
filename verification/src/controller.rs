//! Pairing of joint targets, joint states and actuator limits by joint name
//! for the PD controller of the simulated robot, and the path of its model.
//!
//! The controller computes one motor command per actuator, in the order of
//! the actuator limits; for each it needs the target and the current state of
//! the joint of the same name. This module decides which target and which
//! state serve each actuator, or why the targets cannot be used.
use vstd::prelude::*;

verus! {

/// The number of simulation steps in one control period: a 10 ms control
/// period over the 0.5 ms step of the robot's scene description.
pub const STEPS_PER_CONTROL_PERIOD: usize = 20;

/// Why a set of joint targets cannot be turned into motor commands.
#[derive(Clone, Debug, PartialEq)]
pub enum JointTargetError {
    /// No target names the actuator's joint.
    MissingJointTarget(String),
    /// A target names a joint that no actuator drives.
    UnexpectedJointTarget(String),
    /// No current state names the actuator's joint.
    MissingJointState(String),
    /// The target of the actuator's joint holds a value that is not finite.
    NonFiniteJointTarget(String),
    /// Two targets name the same joint.
    DuplicateJointTarget,
}

/// Whether some entry of `names` is `name`.
pub open spec fn has_name(names: Seq<String>, name: Seq<char>) -> bool {
    exists|i: int| 0 <= i < names.len() && (#[trigger] names[i])@ == name
}

/// Whether two entries of `names` are equal.
pub open spec fn has_duplicate_name(names: Seq<String>) -> bool {
    exists|i: int, j: int|
        0 <= i < j < names.len() && (#[trigger] names[i])@ == (#[trigger] names[j])@
}

/// Whether `i` is the first entry of `names` that is `name`.
pub open spec fn is_first_named(names: Seq<String>, name: Seq<char>, i: int) -> bool {
    &&& 0 <= i < names.len()
    &&& names[i]@ == name
    &&& forall|j: int| 0 <= j < i ==> (#[trigger] names[j])@ != name
}

/// Whether `i` is the last entry of `names` that is `name`.
pub open spec fn is_last_named(names: Seq<String>, name: Seq<char>, i: int) -> bool {
    &&& 0 <= i < names.len()
    &&& names[i]@ == name
    &&& forall|j: int| i < j < names.len() ==> (#[trigger] names[j])@ != name
}

/// Whether target `i` names a joint that no actuator drives.
pub open spec fn is_unexpected(targets: Seq<String>, limits: Seq<String>, i: int) -> bool {
    !has_name(limits, targets[i]@)
}

/// Whether some target names a joint that no actuator drives.
pub open spec fn has_unexpected(targets: Seq<String>, limits: Seq<String>) -> bool {
    exists|i: int| 0 <= i < targets.len() && #[trigger] is_unexpected(targets, limits, i)
}

/// Whether a target named `name` is finite (with unique target names, the
/// target of that joint).
pub open spec fn named_target_finite(targets: Seq<String>, finite: Seq<bool>, name: Seq<char>) -> bool {
    exists|i: int| 0 <= i < targets.len() && (#[trigger] targets[i])@ == name && finite[i]
}

/// Whether the actuator of joint `name` cannot be served: its target is
/// missing, its state is missing, or its target is not finite.
pub open spec fn actuator_faulty(
    targets: Seq<String>,
    finite: Seq<bool>,
    states: Seq<String>,
    name: Seq<char>,
) -> bool {
    ||| !has_name(targets, name)
    ||| !has_name(states, name)
    ||| !named_target_finite(targets, finite, name)
}

/// Whether `e` reports the fault of the actuator of joint `name`: the first
/// of its faults, in the order missing target, missing state, non-finite
/// target.
pub open spec fn reports_actuator_fault(
    e: JointTargetError,
    targets: Seq<String>,
    finite: Seq<bool>,
    states: Seq<String>,
    name: Seq<char>,
) -> bool {
    if !has_name(targets, name) {
        e matches JointTargetError::MissingJointTarget(n) && n@ == name
    } else if !has_name(states, name) {
        e matches JointTargetError::MissingJointState(n) && n@ == name
    } else {
        e matches JointTargetError::NonFiniteJointTarget(n) && n@ == name
    }
}

/// The first entry of `names` that is `name`, if any.
pub fn find_first(names: &[String], name: &String) -> (res: Option<usize>)
    ensures
        match res {
            Some(i) => is_first_named(names@, name@, i as int),
            None => !has_name(names@, name@),
        },
{
    let mut i: usize = 0;
    while i < names.len()
        invariant
            i <= names@.len(),
            forall|j: int| 0 <= j < i ==> (#[trigger] names@[j])@ != name@,
        decreases names@.len() - i,
    {
        if names[i] == *name {
            return Some(i);
        }
        i = i + 1;
    }
    None
}

/// The last entry of `names` that is `name`, if any.
pub fn find_last(names: &[String], name: &String) -> (res: Option<usize>)
    ensures
        match res {
            Some(i) => is_last_named(names@, name@, i as int),
            None => !has_name(names@, name@),
        },
{
    let mut i: usize = names.len();
    while i > 0
        invariant
            i <= names@.len(),
            forall|j: int| i <= j < names@.len() ==> (#[trigger] names@[j])@ != name@,
        decreases i,
    {
        if names[i - 1] == *name {
            return Some(i - 1);
        }
        i = i - 1;
    }
    None
}

/// Pairs each actuator, in the order of `limit_names`, with the target and
/// the current state of its joint: the index of the target named like it in
/// `target_names` and the index of the last state named like it in
/// `state_names` (a later state of a name replaces an earlier one).
/// `target_finite[i]` tells whether target `i` holds finite values.
///
/// Refuses duplicate target names first (`DuplicateJointTarget`), then the
/// first target whose name no actuator has (`UnexpectedJointTarget`), then
/// the first actuator that cannot be served, with the first of its faults:
/// no target, no state, or a target that is not finite.
pub fn plan_motor_commands(
    target_names: &[String],
    target_finite: &[bool],
    state_names: &[String],
    limit_names: &[String],
) -> (res: Result<Vec<(usize, usize)>, JointTargetError>)
    requires
        target_finite@.len() == target_names@.len(),
    ensures
        match res {
            Ok(pairs) => {
                &&& !has_duplicate_name(target_names@)
                &&& !has_unexpected(target_names@, limit_names@)
                &&& pairs.len() == limit_names@.len()
                &&& forall|l: int|
                    #![trigger pairs@[l]]
                    0 <= l < pairs.len() ==> {
                        &&& is_first_named(target_names@, limit_names@[l]@, pairs@[l].0 as int)
                        &&& is_last_named(state_names@, limit_names@[l]@, pairs@[l].1 as int)
                        &&& target_finite@[pairs@[l].0 as int]
                    }
            },
            Err(JointTargetError::DuplicateJointTarget) => has_duplicate_name(target_names@),
            Err(JointTargetError::UnexpectedJointTarget(name)) => {
                &&& !has_duplicate_name(target_names@)
                &&& exists|i: int|
                    0 <= i < target_names@.len() && #[trigger] is_unexpected(
                        target_names@,
                        limit_names@,
                        i,
                    ) && (forall|j: int|
                        0 <= j < i ==> !is_unexpected(target_names@, limit_names@, j))
                        && name@ == target_names@[i]@
            },
            Err(e) => {
                &&& !has_duplicate_name(target_names@)
                &&& !has_unexpected(target_names@, limit_names@)
                &&& exists|l: int|
                    0 <= l < limit_names@.len() && #[trigger] actuator_faulty(
                        target_names@,
                        target_finite@,
                        state_names@,
                        limit_names@[l]@,
                    ) && (forall|k: int|
                        0 <= k < l ==> !actuator_faulty(
                            target_names@,
                            target_finite@,
                            state_names@,
                            limit_names@[k]@,
                        )) && reports_actuator_fault(
                        e,
                        target_names@,
                        target_finite@,
                        state_names@,
                        limit_names@[l]@,
                    )
            },
        },
{
    let mut i: usize = 0;
    while i < target_names.len()
        invariant
            i <= target_names@.len(),
            forall|a: int, b: int|
                0 <= a < b < i ==> (#[trigger] target_names@[a])@ != (
                #[trigger] target_names@[b])@,
        decreases target_names@.len() - i,
    {
        match find_first(target_names, &target_names[i]) {
            Some(f) => {
                if f != i {
                    proof {
                        assert(target_names@[f as int]@ == target_names@[i as int]@);
                    }
                    return Err(JointTargetError::DuplicateJointTarget);
                }
            },
            None => {},
        }
        i = i + 1;
    }
    let mut i: usize = 0;
    while i < target_names.len()
        invariant
            i <= target_names@.len(),
            !has_duplicate_name(target_names@),
            forall|j: int| 0 <= j < i ==> !is_unexpected(target_names@, limit_names@, j),
        decreases target_names@.len() - i,
    {
        if find_first(limit_names, &target_names[i]).is_none() {
            proof {
                assert(is_unexpected(target_names@, limit_names@, i as int));
            }
            return Err(JointTargetError::UnexpectedJointTarget(target_names[i].clone()));
        }
        i = i + 1;
    }
    let mut pairs: Vec<(usize, usize)> = Vec::new();
    let mut l: usize = 0;
    while l < limit_names.len()
        invariant
            target_finite@.len() == target_names@.len(),
            l <= limit_names@.len(),
            !has_duplicate_name(target_names@),
            !has_unexpected(target_names@, limit_names@),
            pairs.len() == l,
            forall|k: int|
                #![trigger pairs@[k]]
                0 <= k < l ==> {
                    &&& is_first_named(target_names@, limit_names@[k]@, pairs@[k].0 as int)
                    &&& is_last_named(state_names@, limit_names@[k]@, pairs@[k].1 as int)
                    &&& target_finite@[pairs@[k].0 as int]
                },
            forall|k: int|
                0 <= k < l ==> !actuator_faulty(
                    target_names@,
                    target_finite@,
                    state_names@,
                    #[trigger] limit_names@[k]@,
                ),
        decreases limit_names@.len() - l,
    {
        let ghost name = limit_names@[l as int]@;
        let t = match find_first(target_names, &limit_names[l]) {
            Some(t) => t,
            None => {
                proof {
                    assert(actuator_faulty(target_names@, target_finite@, state_names@, name));
                }
                return Err(JointTargetError::MissingJointTarget(limit_names[l].clone()));
            },
        };
        let s = match find_last(state_names, &limit_names[l]) {
            Some(s) => s,
            None => {
                proof {
                    assert(target_names@[t as int]@ == name);
                    assert(has_name(target_names@, name));
                    assert(actuator_faulty(target_names@, target_finite@, state_names@, name));
                }
                return Err(JointTargetError::MissingJointState(limit_names[l].clone()));
            },
        };
        if !target_finite[t] {
            proof {
                assert forall|i: int|
                    0 <= i < target_names@.len() && (#[trigger] target_names@[i])@
                        == name implies !target_finite@[i] by {
                    if i != t {
                        if i < t {
                            assert(target_names@[i]@ != name);
                        } else {
                            assert(target_names@[t as int]@ == target_names@[i]@);
                        }
                    }
                }
                assert(target_names@[t as int]@ == name);
                assert(has_name(target_names@, name));
                assert(state_names@[s as int]@ == name);
                assert(has_name(state_names@, name));
                assert(actuator_faulty(target_names@, target_finite@, state_names@, name));
            }
            return Err(JointTargetError::NonFiniteJointTarget(limit_names[l].clone()));
        }
        proof {
            assert(target_names@[t as int]@ == name);
            assert(state_names@[s as int]@ == name);
            assert(!actuator_faulty(target_names@, target_finite@, state_names@, name));
        }
        pairs.push((t, s));
        l = l + 1;
    }
    Ok(pairs)
}

/// One component of a path, appended as `PathBuf::push` appends a relative
/// component on Unix: after a `/` unless the path is empty or already ends
/// with one.
pub open spec fn joined_path(base: Seq<char>, component: Seq<char>) -> Seq<char> {
    if base.len() == 0 || base.last() == '/' {
        base + component
    } else {
        base + seq!['/'] + component
    }
}

/// The path `base` with the relative component `component` appended.
pub fn join_path(base: &str, component: &str) -> (res: String)
    ensures
        res@ == joined_path(base@, component@),
{
    let mut res = String::from_str(base);
    let n = base.unicode_len();
    if n > 0 && base.get_char(n - 1) != '/' {
        res.append("/");
        proof {
            reveal_strlit("/");
            assert("/"@ =~= seq!['/']);
        }
    }
    res.append(component);
    res
}

/// The path of the robot's scene description below the model repository
/// that sits beside the package directory `manifest_dir`:
/// `manifest_dir/../mujoco_menagerie/agility_cassie/scene.xml`.
pub fn default_cassie_scene_path(manifest_dir: &str) -> (res: String)
    ensures
        res@ == joined_path(
            joined_path(joined_path(joined_path(manifest_dir@, ".."@), "mujoco_menagerie"@),
            "agility_cassie"@),
            "scene.xml"@,
        ),
{
    let up = join_path(manifest_dir, "..");
    let repository = join_path(up.as_str(), "mujoco_menagerie");
    let model = join_path(repository.as_str(), "agility_cassie");
    join_path(model.as_str(), "scene.xml")
}

} // verus!
