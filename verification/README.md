# walking_pattern

Walking pattern generation and simulation support for a biped (Agility
Cassie): a linear inverted pendulum (LIPM) centre of mass trajectory, a leg
inverse kinematics solver, a PD controller for a MuJoCo simulation and a joint
angle log.

The library in `src/` holds the parts that do not compute with floating point
numbers, each with a contract proved by Verus:

- `trajectory`: the order of the request checks and the sample schedule of a
  trajectory (which walking segment and which control cycle of it each output
  sample is taken at), with the laws that bound it by the footholds.
- `settings`: the strict `key=value` reader of the inverse kinematics
  settings, its errors, the reading of the iteration count and the order of
  the range checks.
- `ik`: the solver's errors, the checks of the joint names of a kinematics
  model and the control of the damped least squares iteration.
- `controller`: pairing of joint targets, joint states and actuators by name
  for the PD controller, and the path of the robot's scene description.
- `joint_log`: the joint layout check of the angle log and the header of its
  `.dat` file.
- `text`: white space, trimming, splitting, and unsigned decimal text.

`app/` holds the floating point formulas (pendulum solution, landing
optimisation, Levenberg-Marquardt algebra with `nalgebra`, PD law, sine
targets), plotting with `gnuplot`, and the MuJoCo simulation with
`mujoco-rs`; it calls the library for every decision above.
