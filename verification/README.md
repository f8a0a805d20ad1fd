# watercontroller

The logic of an irrigation controller: a motorised main valve with a drain, two
timed sprinklers, a weekly schedule, a flow alarm, calibrated sensors, and the
text and packet formats by which the device is configured and observed (HTTP,
MQTT with Home Assistant discovery, webhooks, two serial consoles, DHCP, DNS,
mDNS, SNTP, NVS flash pages and OTA images).

* `src/` is the library, verified with Verus: the contract of a function says
  what it returns or changes, over spec functions that model the data. The
  contracts of a few small wrappers around `serde_json`, `heapless`, `chrono`,
  `chrono-tz` and the standard library are trusted; each says so above it. Times, bytes and stored values come in as arguments. What holds across
  several calls stands in public proof functions beside the functions that they
  speak of.
* `tests/` runs the compiled library on concrete values.
* `app/` is the program around it: `main.rs` runs the controller on a
  workstation with simulated pins, and `idf/` drives the hardware on an ESP32
  under ESP-IDF. The arithmetic on floating-point readings and the serde types
  stand there too.

Readings are held in the library by their IEEE 754 single-precision bits; the
library compares and prints them, and `app/` computes with them.
