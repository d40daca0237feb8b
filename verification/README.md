# rust_base

Verified decisions of a callback-driven task and I/O stack.

| Module | What it holds |
|--------|---------------|
| `task_traits` | the traits that a task is posted with |
| `thread_pool::task_tracker` | which tasks may be posted, and whom shutdown waits for |
| `thread_pool::shutdown_laws` | what holds of a tracker over a whole history of calls |
| `file_posix` | file requests, and where their work and replies go |
| `blocking` | the system calls of a request, one step at a time |
| `file_runs` | what holds of a request from its first step to its reply |
| `file_system` | what requests do to files, on a system that behaves as described there |
| `stream_socket` | the interface of a connected byte stream |

`src/` never blocks and makes no system call: its functions say what to do next.
`app/` does it, with locks, condition variables, `libc` and boxed closures.
