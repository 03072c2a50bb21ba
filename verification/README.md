# yandex-mail

A desktop client for Yandex Mail. The rules of the client are a Verus library:
what they promise is stated in contracts and proved.

- `src/` is the library. It holds the rules for labels and folders, searches,
  message lists, actions on messages, the local cache, attachments, the account
  and the letters that are sent. What happens on the server, in the vault for
  passwords and on disk is described as steps: a step says what is to be done,
  and the library goes on with the outcome.
- `app/` takes the steps: it talks to the mail server, to the vault, to the
  disk and to the window.
- `tests/` runs the library.

## What is not proved

Base64, modified UTF-7, the parsing of received messages and the building of
letters come from other crates. The library calls them through the functions in
`src/codec.rs`, `src/mime.rs` and `src/letter.rs` whose contracts are trusted;
each says what it claims of the function that it calls. `src/text.rs` holds two
such contracts for functions of the standard library, and `src/codec.rs` three
more: for UTF-8, for lower case and for the file name of a path.
