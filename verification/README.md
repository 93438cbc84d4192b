# nuedc

Firmware for a laser-pointing turret: a camera reports where the target is,
a servo tilts the laser, a stepper on a serial bus turns the turret, and an
IMU reports the yaw.

- `src/` is the library, written in Verus and verified:
  - `step`: the stepper bus frames (`command`), the driver handle and the
    status-query verdicts (`stepper`), and the stepper task's per-tick decisions and
    request mailbox (`task`);
  - `vision`: the camera's `[x,y]` line protocol (`parse`) and the smoothed
    target position (`filter`);
  - `imu`: the IMU frame decoder and the frame CRC-16 that its checksum is
    compared with;
  - `controller`: the target-acquisition state machine (`acquire`) and the
    yaw loop's output memory (`yaw`).
- `app/` is the firmware around it: board start-up, the embassy tasks, the
  serial and PWM peripherals, and the floating-point PID loops.
- `tests/` runs the library on concrete inputs.
