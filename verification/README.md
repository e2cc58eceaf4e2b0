# f1_data

`f1_data` gives access to Formula 1 data from the [jolpica-f1](https://github.com/jolpica/jolpica-f1)
API (the successor of the Ergast API): event schedules, session results, lap timings, pit stops,
and historical information about seasons, drivers, constructors and circuits.

The library in `src/` is verified with Verus:

- `resource`: the resources and filters that can be requested, and the endpoint paths and URLs
  that request them;
- `response`: the types of the API's responses, and the extraction of the expected tables,
  payloads and single elements from them;
- `concat`: the concatenation of the pages of a multi-page response, with the verification that
  the pages follow each other, and the merging of the entries of a race split over pages;
- `get`: the decisions of multi-page requests (which pages to request) and of retries on HTTP
  errors;
- `time`: durations, race times and qualifying times, and the parsing of the API's time formats;
- `text`: decimal numbers as text;
- `api`, `id`, `error`: constants, identifiers and the error type.

`app/` holds what the verified library leaves out: deserialization of the JSON responses, the HTTP
requests themselves with rate limiting, and the fantasy price data files.
