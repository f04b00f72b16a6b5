# probe-shell

The file browser and the terminal of an SSH client.

`src/` is the library. It decides everything and leaves the doing to others: each part is a state that takes
a command or the answer to an operation, and gives what is reported and which operation comes
next. Every function states what it gives, and Verus proves it.

- `worker` browses over SFTP, `browser` over a plain shell; `tree` and `tree_walk` keep the
  navigation tree beside the listings of `listing`, and `search` looks below a set of roots.
- `job`, `transfer`, `folder` and `folder_upload` move files and folders over SFTP;
  `transfer_history` and `folder_history` say what a transfer and a job on a folder come to as a
  whole. `shell`, `shell_upload` and
  `shell_job` do the same over a shell.
- `remote_path` keeps remote names from doing harm: as local file names, as words of a shell
  command, and as paths to delete.
- `utf8` and `local` turn the bytes of a terminal into text. `connection`, `messages`,
  `operation_log`, `crash`, `edit_watch`, `app_update`, `privacy`, `error_hints`, `quick_actions`
  and `device_profile` hold the smaller rules.

`app/` is the program around it: connections, files, tasks, pseudo-terminals. `tests/` runs the
library.

What the proofs rest on without proving it stands in a few declarations, each with a comment that
names the function outside: lower case and characters of the standard library, Base64, random
identifiers, JSON, and the clock.
