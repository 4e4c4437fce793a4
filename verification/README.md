# bedlam_core

A deterministic simulation core for the mission layer of the 1996 game
Bedlam, written in Verus: every executable function in `src/` carries a
contract over mathematical views of the state, and Verus proves the code
against it.

Layout:

- `src/` — the verified library: fixed-point math (`fx`), little-endian
  coding (`le`), the FNV-1a state hash (`hash`), the seeded PCG stream
  (`rng`), input frames and replays (`input`, `replay`), mode toggles
  (`mode`), the host frame model (`frame`), terrain and angle tables
  (`terrain`, `angle`, `movement`), the mission simulation (`mission`),
  personnel (`poi`), rides (`ride`), the destroy family (`objects`,
  `destroy`, `impact`, `fence`, `debris`), the critter bank and its
  staging (`critter`), the critter controller and the enemy-projectile
  bank (`brain`), the pop-up sentry guns (`sentry`), the scripted
  elevators (`elevator`), and the laws that span several operations
  (`properties`).
- `tests/` — scenario tests run against the compiled library.
- `app/` — the error type with its `thiserror` derive and the
  hexadecimal rendering of a state hash, which need traits that the
  verified library cannot carry.

Not part of this library:

- the per-frame flight of enemy projectiles and their hits on robots:
  the controller and the sentry guns stamp shots into the enemy bank,
  and nothing moves them on;
- the weapon-hit lane of the critters (their knock-back and damage from
  robot fire);
- the mission objectives other than the zone-7 count-down, the hint
  pads, the claim table itself (the elevators take it as an argument,
  and the claim gate of splashes and platform building is not modelled),
  and the fixed-step frame driver.
