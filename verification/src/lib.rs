//! Walking pattern generation for a biped: the integer skeleton of the
//! linear inverted pendulum trajectory, the strict `key=value` reader of the
//! inverse kinematics settings, the joint name checks and iteration control
//! of the leg solver, the name pairing of the PD controller, and the layout
//! and header of the joint angle log.
pub mod controller;
pub mod ik;
pub mod joint_log;
pub mod settings;
pub mod text;
pub mod trajectory;
