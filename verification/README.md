# tier

Staking tiers for an IDO platform on the Sei chain, as a verified library.

A user deposits usei; the oracle's price turns the deposit into USD, and the
USD total decides the user's tier against a list of falling thresholds
(tier 1 is the best). The contract stakes exactly what the reached tier asks,
sends the rest back, and later lets the user withdraw the stake and claim it
after an unbonding period. The admin may change the admin, the status and the
validator, and withdraw the staking rewards.

- `src/` — the library, verified with Verus: the price conversion (`band`),
  the configuration and user records with the tier rules (`state`), the
  message handlers (`contract`), delegations (`delegation`), the IDO helpers
  that read a user's tier (`ido`), the messages and errors, and the NFT
  metadata types.
- `app/` — the CosmWasm entry points: storage, chain queries, serde copies of
  the messages, and the conversion of the handlers' answers into chain
  messages.
- `tests/` — tests of the library on concrete values.
