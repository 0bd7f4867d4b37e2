# buzz-host

Run a Buzz agent on a machine that is not your desktop, and keep it running.

Two programs share one library:

| | runs on | job |
|---|---|---|
| `buzz-backend-ssh` | your desktop | speaks the provider protocol; ships the agent over ssh |
| `buzz-host` | the target machine | owns the process: start at boot, restart on crash, where the logs go |

What they decide is in `src/`, in Verus, with contracts that are proved. What
they do to the world (files, processes, the command line) is in `app/`, in plain
Rust: the library plans, hands out one action of a plan at a time, and judges what
came of it before it hands out the next.

## The library

| module | what it holds |
|---|---|
| `provider` | a request, the ssh call that it leads to, and the reply |
| `agent` | from a deploy payload to the environment of the agent |
| `names` | what an agent is called on the machine that runs it |
| `quoting` | text that survives a shell or an XML reader |
| `host` | installing, removing, listing and finding agents |
| `launch` | from the description of a unit to the process that it becomes |
| `programs` | where programs are looked for, and the search path of an agent |
| `supervisor` | launchd and systemd units |
| `steps` | actions, their order, and what a failure means |
| `effects` | what the plans do to the files of the machine |
| `machine` | what the machine is, where it keeps things, and errors |
| `json`, `table`, `lists`, `files`, `text` | what the rest is built on |

JSON is read and written by `serde_json`, digests are computed by `sha2` and
written by `hex`. What is believed of these crates, and of a few functions of the
standard library, stands at the items in `json`, `names` and `text` that call
them.

## Secrets

The agent's private key is in the description of its unit and nowhere else. The
provider puts the description on the standard input of ssh: what stands on the
command line does not depend on the key. The host's plans write it to one file,
made private before anything is in it, and then move that file to its place; no
unit definition and no command of a plan depends on it. `effects` proves that no
file that others can open ever holds it, however far a plan gets.
