# aias_gm

The group manager of the AIAS anonymous authentication service, as a verified
library (`src/`) and the HTTP service around it (`app/`).

`src/` holds the logic, each function with its contract, proved by Verus:

- `domains`: joining the managers' domains into one text, and finding a
  manager's own number among them.
- `ids`: which manager or opener a number names.
- `codec`: the text form of keys and group elements (MessagePack framing, then
  Base64), and the checks that a text stands for a G1 point or a scalar.
- `keys`: whether a manager's or an opener's secret is read from storage or
  generated.
- `challenge`: the random nonce that a member signs.
- `auth`: checking the member's signature and the issuer's certificate, and the
  decision to issue a member key.
- `signing`: the chains in which managers sign a key in turn, and the
  combination of the two chains' keys into the combined group public key.
- `messages`, `records`: the requests, answers and stored rows.

Group elements are carried as their compressed encodings. `app/` turns them
into `bls12_381` values, talks to the network, the session and the store, and
runs the group signature scheme of `distributed_bss`.
