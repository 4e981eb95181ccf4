# tax_core

An income tax calculator with its logic verified by Verus.

- `src/` is the verified library:
  - `constants.rs`: the bracket limits, the rates (in percent) and the bracket table;
  - `digits.rs`: decimal rendering, thousand grouping and number parsing;
  - `tax.rs`: the calculator (monthly income, annual income, bracket, tax in hundredths of a rupiah);
  - `classic.rs`: the single-screen calculator, which takes the typed number as the annual income;
  - `events.rs` and `cli.rs`: key events and how the terminal front end applies them;
  - `user.rs`: the SQL statements and responses of the user web service;
  - `text.rs`: character-level `String` editing.
- `app/` holds the programs around it: the terminal calculator (default), the
  single-screen calculator (`classic`) and the web service (`web`), built on
  ratatui, crossterm, actix-web and sqlite.
- `tests/` runs the library on concrete values.
