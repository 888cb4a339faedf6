# todoers

A terminal client for shared todo lists. Lists live in mergeable documents; what changes is
encrypted and signed on this device before it is handed to a server, and everything can be
read and edited offline.

- `src/` is the library, verified with Verus: keys and key bindings, forms and dialogs, the
  application as a state machine, dates, documents, storage, sorting, the cryptography of
  updates and accounts, and the decisions of the synchronisation.
- `tests/` holds its tests.
- `app/` is the program around it: arguments, files, the terminal, the network.

The library does no I/O. The application takes events, actions and replies of the store, and
gives back the effects that the program is to perform; the store works on tables in memory,
which the program writes to disk.
