# glass_bot

The core of an osu!-centred Discord bot, written in Verus: each function
states what it returns in its `requires` / `ensures` contract, and Verus
proves the code against it.

## Layout

- `src/` — the verified library.
  - `text` — decimal and grouped numbers, padding, byte-capped text,
    joining, searching and replacing.
  - `links` — reading beatmap and beatmapset links out of messages, and
    writing them back; game modes and their names.
  - `help` — the help menu and the texts of the basic commands.
  - `score_format`, `mods`, `map_format`, `card` — how scores, mods,
    beatmaps and profile cards are shown.
  - `sorting`, `paging` — sorting of score lists and the page buttons
    under them.
  - `events`, `tracking`, `caching`, `config` — what the tracker announces,
    who follows whom, when a cached map is stale, guild prefixes and
    notification channels.
  - `music`, `wyr`, `summary`, `mentions` — the music queue and skip
    votes, "would you rather" polls, chat summaries, and mention-safe
    message text.
  - `models` — the stored rows.
- `tests/` — tests of the library on concrete values.
- `app/` — the bot itself: Discord and osu! API calls, the command
  framework, and what works on floating-point numbers.

Contracts that span several functions are stated as `pub proof fn`
items named `lemma_*` beside the functions they speak of.
