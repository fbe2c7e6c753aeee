# SimplePass

SimplePass sends links, files and one-to-one chat messages between trusted
computers on the same local network.

## The library

`src/` is the verified library: Verus proves every function's contract, except for
the few wrappers around outside calls, which are described below.

| Module | What it holds |
|--------|---------------|
| `text`, `codec`, `ids`, `clock` | Text, base64, fresh identifiers, the time and the pace it sets |
| `model` | The data kept and exchanged, and a view of each type |
| `keys`, `envelope` | Identity keys, shared secrets, sealing and opening messages |
| `peers`, `roster`, `trust` | Known devices: pairing, forgetting, announcements, and what these guarantee |
| `setup`, `discovery` | This computer's settings and what it says of itself |
| `chat`, `links`, `transfers` | Conversations, links and transfer rows |
| `files`, `incoming`, `outgoing` | File names, files on their way in, files on their way out |
| `wire`, `dispatch` | Lines of a connection, and what each message does |
| `widget` | The floating desktop icon |

Contracts speak of views, in which every text is a `Seq<char>`. Functions whose
names begin with `law_` state what holds across calls.

The ciphers, the digest, base64, randomness, the clock and the splitting of paths
come from outside crates and from the standard library. Each is called in one
small wrapper. What its contract says is taken on trust, and its comment says what
that is. Random bytes and the time of day may be anything, so the two wrappers that
fetch them promise nothing. A fresh identifier is random as well, but always has
the form of a version 4 UUID, and its wrapper says so.

## The program

`app/` is the desktop program around the library: windows, tray, sockets, files
and serialization. `tests/` runs the library on concrete values.
