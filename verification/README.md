# tavoo

Verified building blocks for receiving ISDB (ARIB) transport streams:

- `isdb`: PSI sections and their CRC-32, the ARIB STD-B10/B21/B25 tables and
  descriptors, version tracking of tables (`Repository`), dates, times and
  27 MHz timestamps.
- `bit`: a big-endian bit reader.
- `codec`: scanning for ADTS (AAC) frame headers and MPEG-2 sequence headers.
- `ring_buf`: a fixed-capacity ring buffer that drops its oldest element.
- `wide_string`: NUL-terminated UTF-16 strings.
- `player`: the decisions a playing session takes when the streams change.

Everything under `src/` is checked by Verus against its `requires`/`ensures`
contracts; the public proof functions named `law_*` state properties that
hold across calls. `app/` adds `std::error::Error` to the PSI error type.
