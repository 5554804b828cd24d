# goal

Long-running goals attached to conversation threads. A thread carries at most
one goal: an objective, a status, an optional token budget, and what was used so
far. While a goal is active, the session that it belongs to is driven from one
turn to the next until the goal is complete, blocked, out of budget, or stopped
by its user.

The library in `src/` is written in Verus. Every function states what it returns
or changes over mathematical views of the data, and the statements are proved.
`app/` is the ordinary Rust around it: the database, files, processes, locks,
connections and the command line.

## Layout

| Module | What it holds |
|---|---|
| `types`, `objective_file` | goals, statuses, requests and their validation; objectives kept in files |
| `store`, `table` | the table of goals and its state machine, with booking of usage |
| `service`, `metrics` | what users may do to goals, and how often it happened |
| `accounting`, `tool_accounting` | tokens and time since the last booking; failing turns |
| `runtime`, `steering` | the hooks around a turn, and the texts that drive the next one |
| `tools` | the three tools through which a model sees and changes its goal |
| `commands`, `receipts`, `goal_runtime`, `goal_repl` | `/goal` commands and their receipts |
| `json`, `extension`, `cursor`, `listing`, `handler`, `connection_registry` | requests of remote clients |
| `goal_meta`, `goal_runner`, `goal_file` | goals that run as tasks of their own |
| `migrate`, `goal_cmd` | the migration of older goals, and the command line |
| `text`, `outside` | strings, and the calls into other crates |

What depends on the host reaches the library as an argument: the time, fresh
identifiers, whether a file could be written, whether a lock was had, whether a
turn was started. `outside` holds what is taken on trust of other crates: the
clock, random identifiers, dates, base64 and JSON text. Of the standard library,
`text` takes `String::push` on trust, and `outside` takes `str::to_lowercase`.

The names of laws that relate several operations begin with `law_`.
