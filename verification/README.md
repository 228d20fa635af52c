# vidarchive

A Telegram bot that archives videos from X and YouTube. A user logs in with the
bot's password and sends a link; the bot downloads the video with `yt-dlp`, makes
it smaller with `ffmpeg` where it is over the size limit, sends it back, and keeps
a log.

- `src/` is the library: every decision of the bot, verified with Verus.
- `app/` is the bot around it: the chat service, files, processes and locks. It
  performs the actions that the library asks for and reports back what happened.
- `tests/` runs the library on concrete values.

The environment sets `TELEGRAM_BOT_TOKEN` (needed), `BOT_PASSWORD`,
`TELEGRAM_API_URL` and `MAX_FILE_SIZE_MB`. A file `cookies.txt` in the working
directory is handed to the downloader.
