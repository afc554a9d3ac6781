use walking_pattern::controller::{
    default_cassie_scene_path, join_path, plan_motor_commands, JointTargetError,
};

fn names(list: &[&str]) -> Vec<String> {
    list.iter().map(|name| name.to_string()).collect()
}

#[test]
fn pd_controller_pairs_its_only_joint_deterministically() {
    // The pairing half of the controller: the only target and the only state
    // serve the only actuator.
    let plan = plan_motor_commands(&names(&["joint"]), &[true], &names(&["joint"]), &names(&["joint"]));
    assert_eq!(plan, Ok(vec![(0, 0)]));
    assert_eq!(
        plan_motor_commands(&names(&["joint"]), &[true], &names(&["joint"]), &names(&["joint"])),
        plan
    );
}

#[test]
fn pd_controller_rejects_missing_duplicate_and_non_finite_targets() {
    let current = names(&["joint"]);
    let limits = names(&["joint"]);

    assert_eq!(
        plan_motor_commands(&[], &[], &current, &limits),
        Err(JointTargetError::MissingJointTarget("joint".into()))
    );

    let duplicate = names(&["joint", "joint"]);
    assert_eq!(
        plan_motor_commands(&duplicate, &[true, true], &current, &limits),
        Err(JointTargetError::DuplicateJointTarget)
    );

    let non_finite = names(&["joint"]);
    assert_eq!(
        plan_motor_commands(&non_finite, &[false], &current, &limits),
        Err(JointTargetError::NonFiniteJointTarget("joint".into()))
    );

    let unexpected = names(&["joint", "passive-joint"]);
    assert_eq!(
        plan_motor_commands(&unexpected, &[true, true], &current, &limits),
        Err(JointTargetError::UnexpectedJointTarget("passive-joint".into()))
    );
}

#[test]
fn actuators_are_served_in_limit_order_by_the_last_state_of_their_name() {
    let targets = names(&["knee", "hip"]);
    let states = names(&["hip", "knee", "hip"]);
    let limits = names(&["hip", "knee"]);
    assert_eq!(
        plan_motor_commands(&targets, &[true, true], &states, &limits),
        Ok(vec![(1, 2), (0, 1)])
    );
    assert_eq!(
        plan_motor_commands(&targets, &[true, true], &names(&["knee"]), &limits),
        Err(JointTargetError::MissingJointState("hip".into()))
    );
    // The first actuator's fault is reported, whatever later ones have.
    assert_eq!(
        plan_motor_commands(&names(&["hip"]), &[false], &states, &limits),
        Err(JointTargetError::NonFiniteJointTarget("hip".into()))
    );
}

#[test]
fn scene_path_sits_in_the_model_repository_beside_the_package() {
    assert_eq!(
        default_cassie_scene_path("/work/controller_sim"),
        "/work/controller_sim/../mujoco_menagerie/agility_cassie/scene.xml"
    );
    assert_eq!(
        default_cassie_scene_path("/work/controller_sim/"),
        "/work/controller_sim/../mujoco_menagerie/agility_cassie/scene.xml"
    );
    assert_eq!(join_path("", "a"), "a");
    assert_eq!(join_path("x", "a"), "x/a");
}
