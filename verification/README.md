# attiny85

Verified drivers for the ATtiny85 (Digispark): a three-wire SPI master or
slave on the USI peripheral, and a bit-banged WS2812B LED strip on PB1.

- `src/spi.rs`: the USI driver as a state machine (`MicroSPI`) that asks for
  one register access at a time; `SpiLink`, the verified `SPI` link that
  hands the driver's sequences to a `UsiPort` and keeps the history of its
  exchanges; the `SPI`/`SPIRead`/`SPIWrite` traits; and the laws of the
  register protocol (pin directions, USI configuration, flag clearing,
  strobing until overflow, the byte returned).
- `src/ws2812b.rs`: colours, the byte order of GRB and RGBW strips, and the
  MSB-first pulse train of each byte, with their laws.
- `app/`: the hardware side. Its `UsiPort` performs the register accesses and the
  cycle-timed pin toggles that the library decides on, through `avr-device`,
  and holds the demo program that prints over SPI with `ufmt`.
