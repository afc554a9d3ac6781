use walking_pattern::joint_log::{check_joint_layout, dat_header, LoggingError};

const ACTIVE_JOINT_NAMES: [&str; 10] = [
    "left-hip-roll",
    "left-hip-yaw",
    "left-hip-pitch",
    "left-knee",
    "left-foot",
    "right-hip-roll",
    "right-hip-yaw",
    "right-hip-pitch",
    "right-knee",
    "right-foot",
];

fn active() -> Vec<String> {
    ACTIVE_JOINT_NAMES.iter().map(|name| name.to_string()).collect()
}

#[test]
fn accepts_only_the_layout_the_log_started_with() {
    let names = active();
    assert_eq!(check_joint_layout(&names, &names), Ok(()));

    let mut reordered = active();
    reordered.swap(0, 1);
    assert_eq!(check_joint_layout(&names, &reordered), Err(LoggingError::JointLayoutChanged));
    assert_eq!(check_joint_layout(&names, &names[..9]), Err(LoggingError::JointLayoutChanged));
}

#[test]
fn dat_header_names_time_and_every_joint_in_radians() {
    let header = dat_header(&active());
    assert!(header.starts_with("# time_s left-hip-roll_rad"));
    assert_eq!(header.split_whitespace().count(), 12);
    assert_eq!(dat_header(&[]), "# time_s");
}

#[test]
fn logging_errors_have_readable_messages() {
    assert_eq!(
        LoggingError::Io("disk full".to_string()).message(),
        "関節角度ログを保存できません: disk full"
    );
}
