# monty

The runtime core of a small Python interpreter, written in Verus: values and the reference-counted
heap, lists and the other containers, calls, exceptions, tasks and gathers, `print`, and the
interface through which a host starts, pauses and resumes a program.

- `src/` is the library. Every function states what it does over the contents of the heap and of
  the machine. `list_laws`, `list_ownership`, `ownership`, `vm/collection_laws`, `vm/queue_laws`
  and `vm/task_laws` hold what is true of several functions together.
- `tests/` runs the library on concrete values.
- `app/` is the side of the host: it drives a machine with an engine that executes bytecode, sends
  printed text to the terminal, and turns programs into bytes and back.

What the library does not carry out itself (bytecode dispatch, binding arguments, most builtins,
methods of strings and dicts) it asks for: an instruction hands out a request or takes the outcome
as an argument.
