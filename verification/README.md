# gbandit

The command-line client of the gbandit game-hosting platform: deploying projects, following
their pipelines, reading logs, querying databases and managing environment variables.

`src/` is a Verus library that holds everything the client decides and computes. Each public
function states what it returns or changes; functions named `law_...` are proved statements
about several of them together. `app/` is the program around it: arguments, files, processes,
network and terminal.

| Module | Holds |
| --- | --- |
| `text`, `lines`, `numbers` | strings and numbers as sequences of characters |
| `outside` | the calls into other crates, with what is taken for granted of each |
| `fault`, `http` | what went wrong, and what a reply means |
| `nesting` | how deep a JSONC text is nested |
| `cli`, `config`, `commands` | what can be asked for, and what each command comes to |
| `printer`, `query_table` | what is shown |
| `auth_session` | logins: where they are kept, how they begin and end |
| `platform_client`, `bodies`, `env_vars` | addresses, bodies and replies of the platform |
| `git`, `version` | `git` runs and what they say |
| `deploy_archive`, `deploy_workflow` | the archive of a project, and a deploy from start to end |
| `sse`, `stage_table`, `pipeline_watch`, `watch` | the event stream of a deploy |
| `scaffold`, `scaffold_command`, `new_command` | fresh workspaces |
| `release_installer` | updating the program |

Functions that stand between two pieces of outside work, such as a deploy or a swap of
programs, are written as steps: they are handed what came of the last piece and say what to
do next. The program carries the steps out.
