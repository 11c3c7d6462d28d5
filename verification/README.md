# autoreport

The tools and the terminal interface of a report-writing agent, as a verified
library.

- `src/` holds the logic. Every function states in its contract what it returns
  or changes, over the mathematical views of its arguments. What holds of the
  library as a whole stands beside the functions, as proof functions whose names
  begin with `law_`.
  - Tools: patches (`apply_patch`), shell commands (`codex_shell`, `exec_tool`),
    directory listings (`list_dir`), manifests and notes (`manifest`), questions
    to the user (`request_user_input`), and the rules on paths that all of them
    share (`file_tools`).
  - Interface: the state of the application (`app_state`, `desk`, `transcript`),
    what events do to it (`key_events`, `app_input`, `app_event`, `app_command`,
    `replay`, `app`), the composer and its popups (`editor`, `bottom_pane`), and
    the setup pages (`config_update`, `configuration_flow`, `environment_setup`).
- `app/` reads and writes files, starts processes, drives the terminal and
  converts values. It carries out the effects that the library asks for and
  hands back what happened.
- `tests/` runs the library on concrete values.

What the library has from other crates goes through a few trusted functions, each
of which says in its documentation what is taken for granted: the width of text
(`width`), the syntax of Bash (`codex_shell::bash`), line differences
(`diff_render`), JSON (`json`), Base64 (`clipboard_copy`), URLs
(`config_update`), and some functions on text of the standard library (`text`,
`chatwidget`).
