# Thief FM Translation Agent

A console agent that translates the texts of Thief fan missions (item names,
books, mission goals) into Polish with OpenAI models.

- `src/` is the verified library (Verus): API key checks and masking, sealing
  the API key for one machine (SHA-256 key derivation, AES-256-GCM, Base64),
  prompt lookup, the choice of prompt for each cached file, the planning of
  cache entries and translated paths, fan mission directory checks, charset
  detection for mission files, and the removal of Polish diacritics.
- `app/` is the program around it: console input and output, the OpenAI and
  GitHub requests, the SQLite cache, files and directories, and the Windows
  registry.
- `tests/` runs the library on concrete values.
