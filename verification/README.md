# insignolib

The rules of the INSIGNO backend (an app for reporting and cleaning up
trash on a map), written in Verus and proved against their contracts, and
the Rocket server around them.

- `src/` is the verified library:
  - `scrypt`: password hashes in the `$rscrypt$` text format, their check,
    and the scrypt parameters;
  - `validation`, `signup`, `login`, `change_password`: the rules on email
    addresses, passwords and user names, and the forms that follow them;
  - `user`: users typed by how far they are authenticated;
  - `pending`: tokens and actions waiting for a confirmation link;
  - `version`, `number`: the app version check and decimal numbers;
  - `text`: splitting, trimming, case mapping and replacing on characters;
  - `error`, `cors`, `files`, `review`, `image_verification`, `mail`,
    `delete_account`, `config`, `pbkdf2_auth`: the smaller rules of the
    server.
- `app/` is the server: routes, database queries, mails and files.
- `tests/` runs the library on concrete values.
