# hijuepapus-bot

A Discord bot that keeps watch over a Minecraft server running in a podman
container: it reports when the server falls and rises, pages the admins for as
long as it stays down, chronicles long sessions, spins a wheel of fortune at
each milestone, proclaims advancements, and offers slash commands to start,
stop and restart the server, manage its whitelist and run a backup.

- `src/` is the library: every decision, every rule and every word the bot
  says, with contracts proved by Verus.
- `app/` is the program around it: Discord (poise), the container API
  (bollard), RCON (mc-query), the clock, the environment and the file that
  remembers which build was proclaimed last.
- `tests/` runs the library on concrete values.

| Module | What it holds |
| --- | --- |
| `text`, `clock`, `fill` | strings as sequences of characters, time as numbers, templates |
| `patterns`, `parse` | the regular expressions and the replies read with them |
| `monitor`, `watch` | the damper over readings of the server, and one round of the watch |
| `chronicle`, `heraldo`, `fortuna` | sessions, deeds and the wheel |
| `changelog` | what a new build proclaims |
| `commands`, `docker`, `rcon`, `config` | what the commands decide, and the rules of the outside services |

A build knows its own commit from the environment that it was compiled in:
`extras/build-env.sh cargo build` puts there what git says of the commit and of
the latest ones. Where there is no repository, `GIT_SHA_ARG` and `GIT_LOG_ARG`
stand in: the hash, and the commits newest first, hash and subject with the
character U+001E between them and U+001F between two commits.
