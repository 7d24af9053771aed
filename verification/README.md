# File Sharer

Devices on a local network find one another by UDP broadcast and send each other files over an
encrypted, authenticated connection (protocol `file-sharer.v2`).

- `src/` is the library, verified with Verus: the cryptography of a transfer, the head of a request
  and of a response, names of files and devices, the packets of discovery, the table of devices, the
  history of transfers, and the course of sending files and of receiving one as state machines that
  say what is to be done next and are told what came of it.
- `tests/` runs the library on concrete values.
- `app/` is the application around it: threads, sockets, files, randomness, the clock, JSON, and the
  windows and commands of the user interface, on every system but Linux.

| modules | what they hold |
| --- | --- |
| `bytes`, `digits`, `text`, `names` | numbers as bytes and digits, texts, file and device names, percent-encoding |
| `modular`, `chacha`, `hmac`, `encoding`, `crypto` | key exchange, stream cipher, authentication code, base64 headers, the keys of a transfer |
| `http`, `transfer`, `sending`, `receiving`, `files` | heads of requests and responses, and the two ends of a transfer |
| `outgoing`, `batch`, `incoming`, `arrival` | the course of sending a file, of sending several, and of receiving one, and what becomes of the directory it is saved in |
| `address`, `discovery`, `devices`, `history`, `identity`, `service` | what a device knows and does |
| `overlay` | the window that appears while a file is dragged |
| `protocol` | what holds of a transfer from one end to the other |

What the library takes on trust of the crates it calls, `sha2` and `base64`, and of the standard
library stands in `hmac`, `encoding`, `files` and `text`, next to the calls.
