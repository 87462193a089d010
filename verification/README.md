# joc_app

The application layer of a flight controller: telemetry, commands from a ground
station, sensor sampling and a log, on top of an RTOS that offers tasks,
semaphores and devices through a service table.

What the application decides stands in `src/`, as functions on plain values whose
contracts Verus proves. What it does (reading, writing, waiting, computing in
floating point) stands in `app/`, which calls `src/`.

| Module | Contents |
|---|---|
| `log` | Log levels, the byte ring that stores lines, the layout of a line |
| `log_task` | Packing lines into packets for the console |
| `flyctrl::frames` | Reassembly of frames from the byte stream of the link |
| `flyctrl::uplink` | Commands, parameters, missions and overrides: state, answers |
| `flyctrl::params` | The parameter table and its legal ranges |
| `flyctrl::mission` | The stored mission and its exchange |
| `flyctrl::control` | Plan of a control cycle, reference altitude, sessions |
| `flyctrl::telemetry` | Messages of a downlink period |
| `flyctrl::sensors_task` | The shared sensor frame |
| `flyctrl::monitor` | The supervision line |
| `flyctrl::est` | Health and arming flags that go with the estimate |
| `flyctrl::tasks` | What the tasks share at the start, the tasks and their priorities |
| `flyctrl_task` | Flight control as one task: its binary formats |
| `sensors` | SBUS receiver, I2C registers, playback, virtual sensors |
| `device`, `abi`, `ioctl` | Handles, transfers, service table, command numbers |
| `demo`, `usbtest`, `intg_test` | Link exercises and on-board checks |
| `text`, `bytes`, `real32`, `vehicle` | Text, numbers, samples |

Numbers in single precision are held as bit patterns (`real32::Real32`), so that
comparisons and range tests on them are proved without floating point.

Functions whose names begin with `law_` state what holds of several functions
together, such as that a mission that was written is read back, or that no line of
the log pushes out a warning.
