# WeatherNode

Firmware of a battery powered ESP32 weather node. It reads temperature, pressure
and humidity from a BME280 and the battery voltage from an ADC channel, publishes
them over MQTT and sleeps until the next cycle. A node without a usable
configuration opens an access point with a configuration portal.

- `src/` is the logic of the node, verified with Verus: configuration, its
  persistence, the portal's requests and replies, URL-encoded forms, the JSON
  payload, the BME280 registers, and the state machines of booting, measuring,
  joining a network, publishing, testing and saving. It does no I/O: each state machine
  says what to do next and is told what came of it.
- `app/` is the ESP-IDF part around it: drivers, threads, HTTP, the form of the
  portal, and the floating point compensation of the samples.
- `tests/` runs the library on the host.

## Payload

```json
{"ESPName":"weathernode","room":"keller","temp":21.35,"pres":1013.47,"humi":54.20,"batvoltvin":3.84}
```

`ESPName` is always there, `room` if one is configured, each reading if it is on.
