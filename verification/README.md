# birthday_bot

A Telegram bot that remembers the birthdays of one group chat's members, lists what is coming up
and greets once a day. The rules stand in a library verified with Verus; a thin program around it
talks to Telegram and keeps the data in a SQLite file.

- `src/`: the verified library
  - `calendar`: days of the Gregorian calendar and instants in UTC
  - `text`: trimming, numbers, and the texts that answers are made of
  - `elements`: users, celebration rules, and the ports to what stores them
  - `ids`: where new IDs come from
  - `inmemory`: a store in memory
  - `rows`: users as a database holds them
  - `service`: who may save or remove whose birthday, and whose birthdays the chat gets to see
  - `bot`: what is read from messages and answered to commands
  - `greeting`: when the daily greeting is due and what it says
  - `guarantees`: what the chat can rely on, whatever Telegram and the store answer
- `tests/`: the library on concrete values
- `app/`: the program, with the SQLite store, the Telegram client and the loop of the greeting

The program reads its settings from the environment or a `.env` file:

| Variable | Default | Meaning |
|---|---|---|
| `TELOXIDE_TOKEN` | | Bot API token |
| `CHAT_ID` | | the group chat that the bot serves |
| `BIRTHDAY_HOUR_UTC` | `9` | hour of the daily greeting, 0 to 23 |
| `DB_PATH` | `birthdays.db` | the SQLite file |
| `RUST_LOG` | | log level |

`takecell`, which `teloxide` brings in, is held at 0.1.1: later versions ask for a newer compiler.
