# rynk_transport

Transports for Rynk keyboards: USB CDC-ACM serial and BLE GATT.

`src/` holds the decisions of both transports, verified with Verus. It does no
I/O: each function turns what the outside answered into what to do next.

- `serial` recognizes keyboards by the marker in their USB serial number, lists
  each once with all of its ports, and says what comes of opening one.
- `ble` lists connected keyboards and is the attached link; `attach` brings the
  link up, with retries; `gatt` finds the characteristics and cuts writes to
  size; `bridge` forwards notifications; `chunk` reads them as a byte stream.
- `handshake` turns an open link into a session.
- `error`, `text` and `protocol` hold failures, text search and the constants
  of the protocol.

`app/` performs the I/O with `tokio`, `tokio-serial` and `bluest`, and hands an
open link to the `rynk` client. On Linux `bluest` needs the D-Bus C library; the
`vendored` feature of `dbus` builds it along. The `usbportinfo-location` feature
of `serialport`, which `tokio-serial` builds on, tells where a USB device is
plugged in, which keeps two keyboards with one serial number apart. Where it
does not tell, every port counts as a keyboard of its own.

`tests/` runs the library on concrete values.
