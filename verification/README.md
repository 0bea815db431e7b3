# rocket_blog

A small blog: articles with titles, bodies and comma separated tags, the
forms that create them, and the pages and database queries built from them.

- `src/` is the library, with a contract and a proof for each function:
  - `text.rs`: characters, decimal numbers (written and read as `u32::from_str`
    reads them), splitting on a separator, whitespace trimming;
  - `posted.rs`: the date and time an article was posted, and its text as
    chrono writes it;
  - `blog.rs`: articles, forms, tags, the lookup and insert queries and what
    their answers mean;
  - `pages.rs`: the content of the pages and the login failure addresses;
  - `laws.rs`: properties that hold for every input (tags read back, numbers
    read back).
- `tests/` runs the library on concrete values.
- `app/` is the web server (rocket, postgres through an r2d2 pool).
