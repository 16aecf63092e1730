# imu_core

A verified core for a multi-IMU sampling stack: an ESP32-C3 board probes
several SPI inertial sensors, streams their samples as protocol frames
over a serial link (JSON lines or COBS-framed binary packets with a CRC-32),
and a host viewer turns the frame stream into a live picture of the
sensors, with recording, replay and CSV export.

## Layout

- `src/` — the library, verified with Verus.
  - `types`, `bus`, `sample`, `driver`: the sensor model, the register bus
    interface (observed through its trace of operations) and the driver
    interface with the vocabulary its contracts use.
  - `drivers/`: the ICM-42688-HXY and QMI8658A drivers, with contracts that
    give the exact bus traffic and result of each operation.
  - `spi`, `platform`, `resources`, `board`, `device`: the board's SPI
    register framing and bus, its resources and slot descriptions.
  - `probe`: slot initialisation and streaming, register snapshots.
  - `protocol`, `codec`: the wire frames and the binary packet framing,
    over `crc32fast` and `cobs`.
  - `transport`: the device session that numbers outgoing frames.
  - `stream`, `serial`: splitting the serial byte stream into candidates,
    and serial port naming.
  - `viewer`, `export`: the host session state, recording and replay, and
    the CSV and file-name exports.
  - `scripted`: a bus that replays prepared bytes, for exercising drivers.
- `tests/`: tests of the library on concrete values.
- `app/`: host programs around the library (console viewer, replay,
  serial open check), the serde wire representations and codecs, the
  floating-point orientation and unit conversions, the attitude-filter
  binding, and the embedded-hal hardware under the board bus.
