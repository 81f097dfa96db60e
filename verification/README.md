# isuports

The service behind a multi-tenant score board: organizers run competitions and upload scores,
players look at rankings, and tenants are billed for the competitions that are finished.

The library in `src/` decides how each request goes on, and Verus proves it. A request is a chain of
questions to the world around it (`question.rs`): each question says what is asked, and its `resume`
takes the reply and says what comes next, up to an answer or an error. `app/` is the web server that
puts the questions to MySQL, SQLite, the file system, the clocks and the network.

What is not proved is that `app/` asks what the questions say. The queries are SQL texts in `app/`:
which rows a list holds, their order, the sums and the limits are up to them and to the databases.
The library takes every reply as it comes. The verification of session tokens is in `app/` too.

| module | what it holds |
|---|---|
| `question` | the questions, the answers, the settings and the shared state |
| `auth`, `viewer` | sessions, roles, and who is let into what |
| `admin`, `organizer`, `player`, `upload`, `setup` | what each kind of request does |
| `lookup` | the questions that many requests share |
| `billing`, `scores`, `tenant`, `ids`, `rnd`, `text` | the rules and computations behind them |
| `cache`, `model`, `error`, `db`, `list` | remembered rows, rows and details, errors, indexes, filtered lists |
