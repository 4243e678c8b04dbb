# investments (verified core)

Broker statement processing rules, written in Verus and proved against their
contracts.

- `src/date.rs`: calendar dates, their order and the next day.
- `src/decimal.rs`, `src/cash.rs`: decimal amounts, money and how both are written.
- `src/firstrade.rs`: the OFX date grammar (`%Y%m%d`, with `000000` after it
  for fourteen-byte texts), statement periods and the checks of a
  Firstrade OFX statement.
- `src/tinkoff.rs`: which files are Tinkoff statements, the sections of the
  statement sheet and the recognition of page footer rows (regular expressions
  come from the `regex` crate).
- `src/text.rs`: Unicode white space and trimming it.
- `src/commissions.rs`, `src/bcs.rs`: commission plans, with BCS's
  "Professional" plan.
- `src/statement.rs`, `src/cash_flow.rs`: cash flows of a statement, ordered by
  date while keeping the order of flows of the same day.
- `app/`: serde types that read OFX documents into the library's types.
