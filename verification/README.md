# dsh_shell

The decisions of the DeepSeek Harness desktop shell, as a verified library.

The shell finds the repository of the harness on this machine, starts its web server, shows the
server's page in a window, and keeps the harness up to date. What it decides on the way is in
`src/`: every function states what it gives back, and Verus proves it. What it does to the
machine is in `app/`.

| Module | What it decides |
|----|----|
| `text`, `digits`, `order`, `calendar`, `unicode` | texts, numbers, lists in order, dates |
| `json`, `yaml` | documents as trees |
| `logging` | entries of the log |
| `paths`, `repo` | where files and the repository are, what is remembered |
| `settings`, `theme`, `locale` | the user's settings in the harness, and when they have changed |
| `shell`, `nav`, `window` | who gets the page, where the window may go, when it closes |
| `server` | how the server is started and when it is ready |
| `steps`, `update`, `update_run`, `update_laws` | the course of an update |
| `check_run`, `rollback_run` | a look at the versions, and the way back |
| `install`, `install_run` | the tools, the place, and the course of an installation |

A course is a conversation: the library asks for one piece of work at a time, `app/` does it
and hands back what came of it, and that decides what is asked for next. What holds of every
course, whatever comes back, is proved in the same modules.

The page that the window shows, `ui/index.html`, is compiled into the program and is not kept
with this library.
