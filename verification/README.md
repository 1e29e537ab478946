# Fetchly

A Telegram bot: send a YouTube, TikTok, Instagram or X link, get the video or
the audio (MP3 with ID3 tags and cover art) back.

## Layout

- `src/` — the bot's logic as a Verus-verified library (`fetchly`). Its
  functions carry `requires` / `ensures` contracts that Verus proves, apart
  from the few trusted wrappers named below, whose contracts are assumed:
  - `text` — character-level helpers (trimming, searching, decimal output);
  - `i18n` — English and Russian texts;
  - `error` — the error type and the chat text for each error;
  - `config` — configuration from environment variables;
  - `media` — link recognition and normalisation (`url`), yt-dlp command
    lines, metadata and output parsing (`ytdlp`), ffmpeg command lines
    (`ffmpeg`), MP3 tag plans (`tag`);
  - `session`, `limiter`, `prefs` — store keys, callback data, rate-limit
    arithmetic, row ids;
  - `telegram` — keyboards and captions (`keyboard`), progress-edit
    throttling (`progress`), message and callback routing, per-user slots and
    admission (`handlers`), and the download pipeline as a state machine
    (`pipeline`);
  - `housekeeping` — when a download directory is stale.

  Calls into `url`, `sha2`, `hex`, `uuid`, `str::to_lowercase` and the
  `String` collection from characters go through small trusted wrappers
  (`#[verifier::external_body]`): Verus believes their contracts, which say
  what the call returns, and checks everything built on them.
- `app/` — the bot binary: Telegram dispatch (teloxide), Redis and SQLite
  stores, the yt-dlp / ffmpeg processes, cover downloads and tagging (lofty),
  serde copies of the session types. It performs what the library decides.
- `tests/` — tests of the library on concrete values.

## Configuration

| Variable                        | Default                  |
|---------------------------------|--------------------------|
| `TELEGRAM_BOT_TOKEN`            | — (required)             |
| `TELEGRAM_API_URL`              | standard API             |
| `FETCHLY_MAX_WORKERS`           | `4`                      |
| `FETCHLY_DOWNLOAD_TIMEOUT_SECS` | `900`                    |
| `FETCHLY_RATE_LIMIT`            | `20`                     |
| `FETCHLY_MAX_PER_USER`          | `2`                      |
| `FETCHLY_MAX_QUEUED`            | `20`                     |
| `FETCHLY_DB_PATH`               | `./fetchly.db`           |
| `FETCHLY_TEMP_DIR`              | `/tmp/fetchly`           |
| `REDIS_URL`                     | `redis://127.0.0.1:6379` |
