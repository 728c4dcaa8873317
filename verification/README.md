# cyclos_core

Concentrated-liquidity pool logic for Solana on Q32.32 fixed-point square-root prices,
verified with Verus.

## Layout

- `src/libraries/`: bit math, Q32.32 square-root price math (next price from an amount,
  token amounts between two prices), tick <-> price conversion, liquidity deltas.  The
  multiply-then-divide steps call the `muldiv` crate.  `tick_order.rs` proves that both
  tick-to-price conversions strictly increase with the tick, and that the tick of a price is
  the greatest tick whose price does not exceed it, so each tick comes back from its price.
- `src/states/`: account states and their operations: ticks (update, cross, fee growth
  inside), the tick bitmap, positions, the pool, oracle partitions.
- `src/modify_position.rs`: crediting and debiting liquidity to a position, with the token
  amounts owed and the pool's in-range liquidity.
- `src/instructions.rs`: the pool program's instructions as state transitions on plain values.
- `src/swap_router.rs`: the router's deadline, price limit and slippage decisions.
- `src/protocol_v2.rs`: factory instructions of the prototype pool program.
- `tests/`: tests of the library.
- `app/`: the Solana side: Anchor account layouts and events, token transfers, the clock, and
  the floating-point prototype math.

Every function in `src/` carries a contract; the public proof functions (`lemma_*`) state laws
that relate several operations, such as burning what was minted restoring the liquidity state.
