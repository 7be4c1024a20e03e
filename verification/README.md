# rware

A grid-based robotic warehouse, verified with Verus.

- `src/` is the verified library: positions and directions (`grid`, `types`),
  actions, the warehouse state (`entity`), the rules of a step
  (`simulation`), steps that advance the global clock (`clock_sim`), ASCII
  maps (`ascii`), properties of every step (`laws`), the greedy and random
  agents (`bots`), and the learning environment and replay buffer (`rl`).
- `app/` holds the Burn-based Q-network, DQN agent and training loop, which
  work with floating point numbers and tensors.
- `tests/` exercises the library.
