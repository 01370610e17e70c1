# quantum_launcher

The decision logic of a Minecraft launcher, written in Verus and proved
against its contracts.

- `src/` is the verified library. Each module states what its functions do
  over mathematical models (`Seq`, `Set`, views of the data types), and the
  `law_*` proof functions state properties that span several calls (what a
  second call undoes, what every operation keeps).
  - `sidebar/`: the tree of instances and folders (editing, drag and drop,
    repair, keyboard walks through it).
  - `mods/`: ordering, picking, exporting, jar-mod editing, store search
    pages, categories and recommended mods.
  - `accounts`, `autosave`, `config`, `create`, `custom_jar`, `notes`,
    `package`, `shortcut`, `menu`, `input`, `navigation`, `message`, `cli`,
    `session`:
    the state changes of the interface's screens and of the command line, as
    functions from state and event to the next state.
  - `update_check`, `mclogs`, `format`, `text`, `order`, `theme`: update
    decisions, log upload checks, number formatting and text helpers.
- `tests/` runs the library on concrete values.
- `app/` is a small command line front end: it reads and writes the
  launcher's files and hands plain values to the library.
