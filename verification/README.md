# sqhooks

Hooks on the Squirrel script functions of a game.

A script asks for a function to be hooked (`SQRegisterHook`) before the function is compiled. When
the engine compiles it, a trampoline takes its place, which hands its arguments to a native
dispatcher (`__CallHook`). Scripts then put hooks on the function (`HookOn`); a call runs the last
of them, and each hook gets a closure that leads to the one below it, down to the function itself.

- `src/` is the library, verified with Verus. It sees the engine as plain values: a pointer is an
  address, a string is its bytes. Where the engine has to act in the midst of an operation, the
  operation comes in several functions.
  - `hook_install`, `hook_table`: which functions are to be hooked, and the hooks on them
  - `hook_dispatch`: calls of hooked functions
  - `trampoline`, `forwarding`: the code of a trampoline, and what it does when it runs
  - `utils`, `refcount`, `squirrel`, `text`: engine objects, reference counts, values and text
  - `variadic`, `pre_sqvm`, `context`: arguments, detours, and state per VM
- `tests/` runs the library on concrete values.
- `app/` is the plugin: it reads and writes the engine's memory and calls its functions. How the
  engine lays functions out in memory comes in through `bindings::set_layout`.
