# server

Realtime backend for shared 3D spaces: presence, movement, chat and per-space
layouts over Socket.IO, and the agents that live in those spaces.

The rules are a verified library; the sockets, files and clocks lie around it.

## Layout

| Place | What |
|---|---|
| `src/auth.rs` | nonces, and wallets proven by signing them |
| `src/chain/` | reading spaces from the chain, who may edit, how long that is trusted |
| `src/config.rs`, `src/origin_guard.rs` | settings, and which browsers are let in |
| `src/limits.rs` | token buckets per connection |
| `src/realtime/` | connections, rooms, layouts, and what each event leads to |
| `src/store.rs` | where layouts lie on disk |
| `src/agents/` | world agents, bridged bots and the bridge |
| `src/text.rs`, `src/text_map.rs`, `src/json.rs`, `src/scalar.rs`, `src/pubkey.rs` | values the rest is made of |
| `app/` | the programs: Socket.IO, REST, JSON, disk, the Solana endpoint, the language model |
| `tests/` | what the library does on given values |

## What is proved

The functions of `src/` have contracts over mathematical models of their data.
Beside the functions stand the laws that span them, as public proof functions,
among others:

- a layout is written exactly if its author is in the room, has proven a wallet
  that may edit, sent a valid layout against the current revision, and the new
  record is on disk (`only_rightful_updates_are_written`);
- of two updates against one revision the second is refused and told the current
  record (`second_writer_is_refused`, `stale_updates_are_answered`);
- after a sale the seller and the seller's editors no longer edit
  (`sale_ends_old_rights`);
- a claim to a wallet is accepted only with a signature over this connection's
  nonce (`accepted_claims_sign_the_nonce`), and nothing else proves one
  (`only_auth_proves_a_wallet`);
- a browser on a foreign origin does not get through to the Socket.IO endpoint
  (`foreign_origins_are_refused`);
- an agent neither spams nor repeats itself nor greets anyone again, all session
  long (`agents_behave_all_session_long`, `bots_behave_all_along`);
- no more actions are granted than a bucket held and regained
  (`grants_are_bounded`);
- whatever the program writes into an account is read back from it
  (`space_reads_back`, `config_reads_back`).

Single-precision numbers are held by their bit patterns and only compared and
clamped; arithmetic on them is done in `app/`. Times are passed in.

## Run

The first argument picks a program: `agent_bot`, `agent_bridge` or `world_agent`;
without one the server runs.
