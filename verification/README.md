# time

Calendar dates, clock times and date-times without a UTC offset, with their
arithmetic, comparisons, `strftime`-style formatting and parsing, written in
Verus: every executable function in `src/` is verified against its contract.
Reading the system clock is the one exception to exact contracts: what the
clock reads cannot be stated, so `now` promises nothing of the point it
returns, while the conversions it is built from are verified exactly.

## Layout

- `src/calendar.rs`, `src/date.rs`, `src/weekday.rs`: the proleptic Gregorian
  calendar (years -100,000 to 100,000), ISO weeks and week numbers.
- `src/time.rs`, `src/duration.rs`, `src/std_duration.rs`: clock times and
  signed and unsigned spans of time, modelled as integers of nanoseconds.
- `src/primitive_date_time.rs`, `src/comparison.rs`: the date-time type, its
  arithmetic and ordering; every date-time is modelled by its nanoseconds
  since 1970-01-01T00:00.
- `src/system_time.rs`: points on the system clock, conversions from the
  standard library's clock values, and reading the clock.
- `src/offset.rs`: attaching a UTC offset to a date-time.
- `src/format.rs`, `src/parse.rs`, `src/parsed.rs`, `src/reading_back.rs`:
  format descriptions, writing a date-time out, reading it back, and the proof
  that text written with `%F %T.%N` reads back as the same date-time.
- `tests/`: tests of the library on concrete values.
- `app/`: serde support for date-times, outside the verified library.
