# y2b

Watches YouTube channels, fetches new videos, has their subtitles translated, and submits them to
Bilibili, where the translation follows as soft subtitles.

`src/` is a Verus library with everything that is decided along the way:

- `store`, `queue`, `jobs`, `recovery`, `retry`, `course`: the tables and the life of a job;
- `channels`, `candidates`, `discovery`, `poll`, `gate`, `schedule`, `limits`: finding videos and
  letting them in;
- `subtitle`, `batching`, `segment`, `translate`, `pi`, `reply`: cutting and translating subtitles;
- `publication`, `wording`, `captions`: what is published;
- `uploads`, `submit`, `cc`, `bilibili`: submissions and soft subtitles;
- `settings`, `ledger`, `prune`, `hold`, `schema`, `rows`: settings, records, the maintenance lock
  and the layout of the database;
- `config`, `check`, `admin`, `prepare`: configuration, checks, upkeep and preparation;
- `text`, `json`, `markup`, `clock`, `order`, `model`, `fault`, `youtube`: what the others build on.

Times are milliseconds since the epoch. Each operation on the tables takes the present moment as an
argument, so what it does depends on its arguments and the tables alone; only new ids and jitter
come from chance.

`app/` is the program around it: the command line, the configuration file, the SQLite file, outside
programs and the network. It hands the library the tables inside one transaction and writes back
the rows that changed.

`tests/` runs the library on concrete values.
