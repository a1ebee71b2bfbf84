# worker

A worker watches the machine that it runs on. It checks applications over HTTP, over TCP and
with commands, each at its own interval. It warns of certificates that are about to expire, it
follows the containers of Docker, and it takes the readings of the machine itself.

- `src/` is the library. It makes the decisions, and Verus proves that they are the ones that
  its contracts state.
  - `config`: the configuration, what stands for keys that are left out, and reloading.
  - `health_check`: which applications are due, and the table of what is known of them.
    `health_check::check` holds the single checks as a machine that says what to do next, and
    `health_check::laws` what holds of the schedule and the table as a whole.
  - `docker_monitor`: the rounds over the containers.
  - `system_status`: what is made of the readings of the machine.
  - `interval`, `text`: intervals, and text as sequences of characters.
  - `trusted`: the calls into other crates. Their contracts are believed, not proved.
- `app/` is the program around it: files, sockets, processes, threads and clocks, and what is
  computed in floating point.
- `tests/` runs the library on concrete values.
