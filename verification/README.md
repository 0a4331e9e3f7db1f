# mtproto_satori

A Satori protocol adapter for Telegram accounts (MTProto), with its logic verified by Verus.

## Layout

- `src/` — the verified library:
  - the Satori markup: escaping (`entities`), elements (`element`), the lexer and parser (`markup`) and its laws (`markup_roundtrip`);
  - Telegram to Satori: text entities, messages, users, channels and links (`message_receive`, `convert`, `event`);
  - Satori to Telegram: the message encoder and send plans (`message_send`), the look-ups it needs (`infos`), uploads (`upload`);
  - the event queue, albums, client sessions and the self-information cache (`publisher`), request authorization (`authorization`);
  - file references of internal links (`file_id`), and text helpers (`text`, `utf16`, `word_chars`).
- `app/` — the program around the library: configuration, the Telegram client, the HTTP and WebSocket server, file and network I/O.
- `tests/` — tests of the library on concrete values.

Each public function states in its contract what it returns; the laws that relate several functions
(markup read back from what `dump` writes, stripping over concatenation, escaping undone by unescaping, file references and channel
ids read back, event recovery after a series of sends, album merging) are public proof functions.
