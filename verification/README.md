# hoyolab_auto

Claims the daily HoYoLAB check-in rewards of four games, redeems new gift
codes of three games, and reports both to a Discord webhook.

- `src/` is the verified library: the game and request catalogues, the
  addresses, cookies and parameters of each request, the check-in as a state
  machine driven by the API's replies, the retry decision of a code exchange,
  the choice of codes worth trying, the `.env` update that keeps a refreshed
  token, the login request, and the text of both reports.
- `app/` is the program around it: HTTP requests, the configuration and
  `codes.json` files, the environment, the clock, and JSON encoding.
- `tests/` runs the library on concrete values.
