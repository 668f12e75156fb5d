# dirge_plugin

The plugin host of an agent, verified with Verus.

Plugins are Janet programs. They call the functions of the harness
(`harness/notify`, `harness/register-tool`, `harness/block`, ...), and the host
calls their handlers: hooks, slash commands, tools and renderers. The library
under `src/` holds the rules of that conversation with exact contracts. It does
not run Janet. Each operation that needs the engine comes in two parts: the
first gives the source to evaluate, the second takes the reply.

- `src/` is the library. Every function has a contract over spec functions, and
  the laws of each module are public proof functions at its end.
- `tests/plugin_host.rs` runs plugin code through a small interpreter that
  stands in for Janet. `tests/library.rs` tests exact texts and edge cases.
- `app/` is the host around the library: the Janet engine on a thread of its
  own, plugins on disk, and questions that are answered without a user.

Some of the laws:

- What a plugin queues is drained whole, in order and once, whatever characters
  it holds; a message cannot add a second entry.
- Of several registrations under one name the last one counts, in the place of
  the first.
- A text that is spliced into source as a literal reads back as that text.
- A dispatch calls every handler once and in order; an error of one handler is
  shown to the user and stops no other. The first handler that blocks a tool
  call is the last one that runs.
- The files of a plugin are evaluated in order, and the first that fails ends
  the load. The source that is evaluated after them leaves no hook under its
  bare name, so that no later plugin inherits it. This holds of plugins whose
  stem makes symbols of Janet: a blank or a bracket in it breaks that source.
- The prelude defines every function and every variable of the harness. What
  plugin code assigns to a variable reaches the harness, and nothing else
  changes with it.
- A plugin reads its settings while it is loaded, and nil at any other time.

What is trusted: `String::push` and `char::from_u32` of the standard library,
and the printing of a JSON object by `serde_json`.
