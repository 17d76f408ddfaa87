# esp_examples

The decision logic of a collection of small ESP32-C3 demonstration
programs (GPIO, timers, UART, SPI, ADC, Wi-Fi, ping, a serial terminal,
Bluetooth LE), written in Verus and verified.

- `src/` is the library. Each module holds the computations of one or more
  demonstrations, with contracts and laws proved by Verus:
  `delay` (button-driven delay cycles), `debounce` (debounced press
  counting), `pulse` (pulse widths, edge tracking, ultrasonic distance),
  `counter`, `matrix` (MAX7219 command frames), `cipher` (XOR scrambling),
  `credentials` (serial entry of Wi-Fi credentials), `sentences` (random
  line selection), `number` (decimal option parsing), `ping` and `cli`
  (the terminal's commands), `device` (peer name matching).
- `tests/` exercises the library on concrete values.
- `app/` is the firmware around it: peripherals, radio, serial I/O and the
  floating-point thermistor formula, one module per demonstration.
