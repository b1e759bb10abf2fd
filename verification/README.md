# cce-display-manager

The login screen of the cce desktop, with its keyring daemon. A root daemon on
a virtual terminal shows a greeter, checks the user's password or fingerprint,
and runs the session; the keyring daemon opens the user's databases once the
session is up.

What these programs decide is a library, verified with Verus. What they do to
the machine (processes, sockets, PAM, D-Bus, drawing) is a thin program around
it, which performs one step at a time and hands back what came of it.

## The library (`src/`)

| Module | What it holds |
|---|---|
| `text`, `split`, `number`, `path` | texts, lines, words, numbers and paths |
| `invocation` | programs to run and bus calls to make, as values |
| `protocol` | the line by which the greeter hands over a login |
| `helper` | the lines of the fingerprint helper, and the reports of an attempt |
| `session` | desktop files, commands, session ids, the list on the greeter |
| `greeter` | the greeter's state: keys, mouse, attempts, reports |
| `pam` | the conversation with PAM, the order of its calls, its environment |
| `roles` | which role the program was started in, and who may run it |
| `worker` | the course of a session, its environment, its report |
| `vt`, `resume` | the virtual terminal; the signal that follows a sleep |
| `daemon` | the loop of greeter and sessions |
| `keyring`, `bus` | registered databases; calls on the session bus |
| `unlock`, `client`, `setup` | the keyring daemon, its client, its registration |

Each public function states its result; the public proof functions beside them
state what holds of several together. Among these: a login crosses the pipe to
the daemon unchanged, and its password reaches neither the log nor an argument
list; reports of an abandoned attempt change nothing; a session is run only
once it was opened, and ended before the next greeter; a password is handed to
KeePassXC only after its process was checked, a few times at most, and the step
after that overwrites it; every run that opens a database for a request has
ended before the client gives up, unless it started too late to do anything.

## The programs (`app/`)

One program under five names: `cce-display-manager`, `cce-keyring-unlockd`,
`cce-keyring-unlock`, `cce-keyring-unlock-setup` and `test_pam`. `greeter.rs`
holds the window and needs the `cce_ui` toolkit.

## Tests (`tests/`)

They run the library on concrete values, one file per group of modules.
