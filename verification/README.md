# rebound_rs

The integer core of the REBOUND N-body code, proved with Verus.

`src/` is the verified library:

- `tools.rs`: glibc's `rand_r` generator (exact 31-bit output and seed
  update), the djb2 string hash `reb_hash`, the seed from clock and process
  id, and the message log of a simulation (stored with a bounded window of
  `reb_messages_max_N` entries, or queued for standard error).
- `variational.rs`: sets of variational equations (where their particles
  go), starting MEGNO, which sets a rescaling pass rescales and which
  warnings it gives, and which sets follow a move to the center of mass.
- `integrator_*.rs`: the IAS15, leapfrog and WHFast steps, which are not
  available and stop the simulation with an error; the WHFast settings.
- `types.rs`: the simulation record these routines work on.

`app/` holds what works on floating-point numbers (particles, orbits,
energies, random deviates, MEGNO sums), around the verified core, and
writes queued messages to standard error.

`tests/` exercises the library on concrete values.
