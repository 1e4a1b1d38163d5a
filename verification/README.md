# sheet_accounts

Accounts of points kept in a Google Sheets spreadsheet, one sheet per
account (titled `NAME_ACCOUNT`), served over HTTP.

- `src/` is the verified library (Verus):
  - `text.rs`: decimal notation of integers and its parsing, the
    `_ACCOUNT` title ending;
  - `sheet_serialize.rs`: where a record is written (`SerializeArgs`);
  - `sheet_helper.rs`: JSON cell values, ranges in A1 notation, writes and a
    model of the cells they leave;
  - `account.rs`: accounts and their history, their layout in a sheet and
    how they are read back;
  - `routes/`: the decisions of the login, transfer and leaderboard
    services, as steps from what the spreadsheet answered to the next
    request or the reply.
- `app/` is the Rocket web service around it: the spreadsheet client, the
  JSON forms of the records, and the loops that run the services' steps.
- `tests/` exercises the library on concrete values.
