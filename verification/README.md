# compass

The decision core of a USDC yield engine that keeps a user's capital in the
best venue their policy allows (an idle balance on Arc or Arbitrum Sepolia,
or AAVE v3 on Arbitrum Sepolia), written in Verus and proved against its
contracts.

## Layout

- `src/` — the verified library.
  - `model`, `text`: identifiers, 20-byte addresses, decimal and hex text.
  - `outside`: the `alloy` parsers the library calls, with what each reads.
  - `policy`, `policy_store`: policies, their validation, versioned storage.
  - `evaluator`, `risk_gate`, `tick`: the guards, the ranking of venues,
    the sizing of a move, the risk gate a plan passes, the audit trail of a round.
  - `thoughts`: the lines of reasoning shown to the user.
  - `executor`, `withdrawal`, `recovery`: the on-chain flows as state
    machines that say what to do next and take back what happened.
  - `audit`, `funding`, `position_store`, `session_cache`, `chat_history`:
    in-memory stores with their read-after-write laws.
  - `requests`, `accounts`, `session`, `chat`, `config`: what the HTTP
    endpoints check, compute and answer.
- `app/` — the service around it: HTTP routes, JSON, the clock, the cron
  loop, the plan executor that records each step in the audit trail, and
  the floating-point pricing of moves.
- `tests/` — tests of the library on concrete values.
