# donation_overlay

A donation-tracker overlay feeder. It logs in to a Django-based donation
tracker, writes the event's total, its bids and its latest donations to small
text files that a streaming overlay displays, and then follows the tracker's
donations websocket to keep those files current.

- `src/` is the verified library (Verus): dollar formatting, bid and donation
  files, the paged bid feed, session-cookie handling and the login decisions,
  the websocket read-loop decisions and the reconnecting listener's backoff.
- `tests/` runs the library on concrete values.
- `app/` is the program around it: HTTP and websocket I/O, the files on disk,
  the terminal prompts, JSON decoding and the float-to-cents rounding.
