# room_monitoring

Decision logic of a room monitor. An ESP32 reads an SHT30 sensor and posts
the temperature and humidity to a Discord webhook at fixed times of day
(Tokyo time). The logic is proved with Verus.

- `src/time.rs`: instants, times of day, and the `chrono` / `chrono-tz` calls
  that convert between them.
- `src/schedule.rs`: which measurement time comes next, and how long to sleep
  before it.
- `src/discord.rs`: the body of a webhook post, and the record of recent posts
  that limits posting to five a minute. The record is kept in a `heapless`
  queue.
- `src/sht30.rs`: checking and decoding the sensor's frame using its CRC-8
  checksums.
- `src/measurement.rs`: how many failed readings are tolerated.
- `src/serial.rs`, `src/nvs.rs`: assembling a line typed on the console, and
  decoding it.
- `app/`: the firmware: peripherals, Wi-Fi, SNTP, HTTP, deep sleep, and the
  floating-point conversions. It builds only for the ESP-IDF target and
  embeds the webhook URL from `webhook_url`.
