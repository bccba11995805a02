# clix

Run a tool that lives on another of your machines, with a grant its owner gave.

`src/` is the library. It decides everything and is verified with Verus: what a
command line means, who may run what and when, what a request and a job become,
which signed records a history keeps, what may be pruned, and what may be
replaced in a shared directory. `src/laws/` states what holds across operations:
a job that was admitted never runs twice, history never grants or starts
anything, pruning keeps outcomes and receipts, a `.git` directory is never
copied.

`app/` is the program around it: sockets, TLS, files, processes, notifications
and the tray. It performs what the library asks for and hands back what it saw.

`tests/` runs the library with the outside crates it calls.

Cryptography, JSON quoting and the calendar come from outside crates. Each call
stands behind a small function whose doc comment names it and says what is taken
on trust.
