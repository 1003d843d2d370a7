# ecobee_hap

A driver for ecobee thermostats and the room sensors that they bridge, over HomeKit on the local
network. The library is written and proved in Verus: each function states in its contract what
it returns, and the properties that span several calls are proved beside it.

The host makes the requests. It pairs and encrypts behind `hap-pair://` and `hap://` addresses,
so to the driver everything looks like ordinary HTTP with JSON documents.

## Layout

- `src/driver.rs`: what the host calls: a device comes up, a command, an answer, setup.
- `src/report.rs`, `src/request.rs`, `src/setup.rs`: what an answer tells, what is sent, and how
  a thermostat is paired and adopted.
- `src/accessory.rs`, `src/json.rs`, `src/text.rs`, `src/double.rs`: accessory documents and what
  they are made of. A double is held as its bits, and rounding it to tenths is integer arithmetic.
- `src/host.rs`: the values that pass between driver and host.
- `src/model/`: the same behaviour over mathematical values; the contracts speak of it.
- `src/laws/`: what holds of the driver as a whole.
- `app/`: the module that a host loads. It turns the host's values into the library's and back.
- `tests/`: examples, with exact documents and answers.

Two functions are trusted: `str::to_uppercase` and `str::to_lowercase` of the standard library, in
`src/text.rs`. On ASCII text their result is stated, on other text it only has a name.
