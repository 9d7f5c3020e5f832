# Form-Respondent-Role

A RoleLogic plugin that gates Discord roles behind a form. Admins build a form,
members fill it in on the web, and the answers decide who gets the role.

The rules of the plugin are a library written in [Verus](https://github.com/verus-lang/verus):
every function of it has a contract, and Verus proves the contracts and the laws
that relate them.

## Layout

- `src/`: the verified library.
  - `models/`: forms and conditions.
  - `services/`: validation and grading, retries, condition evaluation in memory
    and as SQL, the job queue, the role syncs, the RoleLogic and Auth Gateway
    protocols, webhook delivery.
  - `tasks/`: the job worker, the job listener and the startup backfill, each as
    a step from state and event to next state and action.
  - `routes/`: what each page and endpoint decides, and the texts it answers with.
  - `schema.rs`: the configuration of a role link.
  - `error.rs`: failures and the replies they become.
  - `json.rs`, `double.rs`, `numerals.rs`, `text.rs`, `table.rs`, `time.rs`: the
    values that the rest works on. A floating-point number is held by its bits.
  - `outside.rs`: the calls into other crates, whose contracts are trusted.
- `app/`: the server around the library: HTTP, Postgres, outgoing requests,
  signals. It performs what the library asks for and hands back what came of it.
- `tests/`: tests of the library.

A law stands as a public proof function whose name begins with `law_`.

## Running

The server reads its settings from the environment: `DATABASE_URL`,
`SESSION_SECRET`, `BASE_URL` and `INTERNAL_API_KEY` are required;
`AUTH_GATEWAY_URL`, `ROLELOGIC_API_URL`, `RL_DASHBOARD_ORIGIN`, `LISTEN_ADDR`,
`TEMPLATES_DIR`, `MIGRATIONS_DIR`, `WORKER_CONCURRENCY` and the `DB_*` limits of
the connection pool have defaults. With the argument `migrate` it applies the
migrations and exits.
