# presence_bot

A moderation bot for Discord servers. The library (`src/`, verified with Verus)
holds what the bot decides: which stored rules (regular expressions and words)
block a message, how a command's punishment text such as `ban 1d12h` is read,
how rules and settings are stored as documents and read back, how rule lists
are cut into pages, and the texts the bot answers with. `app/` is the bot
itself: the Discord gateway, the database, the cache and the commands' I/O.

Modules:

- `scanners`: pattern and word rules, punishments, the Unicode clean-up.
- `utils`: duration texts, paging, log texts, text helpers.
- `mongo`: the document form of rules and settings, cache keys, message scanning.
- `commands`, `handler`, `messages`: the decisions and answers of the commands
  and events.
