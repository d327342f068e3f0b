# buzz_acp

The decisions of the `buzz-acp` agent harness, written in Verus: the functions of the library carry
contracts that Verus proves.

- `src/engram_fetch.rs`: the agent's core memory, from the relay's reply to a prompt section.
- `src/persona_check.rs`: the startup check that the configured persona serves the turns.
- `src/restart.rs`, `src/restart_driver.rs`: the owner's `!restart`, and the detached driver that
  starts the seat again.
- `src/self_report.rs`, `src/reporter.rs`: what a seat reports of itself, and when.
- `src/event.rs`, `src/json.rs`, `src/digest.rs`: what is taken from `nostr`, `serde_json`, `sha2`
  and `hex`. Their contracts are trusted, not proved.
- `src/text.rs`, `src/numeral.rs`: text and numbers.

`app/` performs what the library decides: files, processes, clocks and the network.
