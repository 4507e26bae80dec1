# r34_api

Builds request URLs for the rule34.xxx post API and turns its JSON answers
into posts, with the behaviour stated in Verus contracts and proved.

- `src/text.rs`: character-level helpers (string equality, decimal
  numbers, joining, splitting on Unicode white space).
- `src/json.rs`: the `JsonValue` the parser reads, and the calls into
  `serde_json` that produce it.
- `src/post.rs`: `Post`, `Rating` and their text forms.
- `src/api_url.rs`: the `ApiUrl` builder and the URL it yields.
- `src/parser.rs`: `R34JsonParser`, its configuration and the posts it
  extracts.
- `app/lib.rs`: `Display` for copies of the library's types.
