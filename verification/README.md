# Adele GTK

The view logic of the Adele desktop client, written and verified in Verus, and the
GTK 4 widgets around it.

- `src/` is the library. It decides what the widgets show and what they ask for:
  ranking and grouping of tool usage, forms and their validation, the models of the
  task list, the transcript, the model picker and the settings dialog. It holds plain
  values only. Every function has a contract, and the `law_*` proof functions state
  what holds across functions.
- `tests/` runs the library on concrete values.
- `app/` is the toolkit side: it paints what the library says, hands the user's input
  back, and does the input and output that the library asks for.

Two calls leave the library: `serde_json` quotes the strings of a server's
configuration, and `uuid` makes the id of a new connection profile. Both stand behind
wrappers whose contracts say what is relied on.
