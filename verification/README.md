# Starlight

`starlight` watches a network interface, runs each packet through a small fixed
network and shows the result on the Sense HAT 8x8 LED matrix of a Raspberry Pi.
It keeps an eye on the CPU temperature, pulses the matrix while the board is
hot, stops when it gets too hot, and tells local subscribers about it over a
Unix socket.

## Layout

`src/` is the library, verified with Verus. It does no I/O: it takes plain
values, decides, and says what to do.

| module | what it decides |
| --- | --- |
| `single`, `rounding`, `decimal` | single-precision numbers as bit patterns: order, correctly rounded quotients, text |
| `frame`, `network`, `i2c` | packets, network layers and display frames as bytes |
| `sensor`, `thermal`, `publisher` | temperature readings, status messages and their subscribers |
| `connections` | how long the subscribers' descriptors stay open |
| `text`, `config`, `launch` | settings, the launch configuration, the steps of a run |
| `setup`, `socket`, `capture` | how the sockets come into being, and what is said when they do not |
| `console` | what the program says |
| `runtime` | one step per completed or refused operation |
| `supervision` | what holds of every run, whatever completes or is refused |

`app/` is the program around it: system calls, timers, floating-point layers.
`tests/` runs the library from outside.

## Running

```
starlight <interface_name> <framebuffer_path>
starlight --i2c <interface_name>
```

| variable | meaning | default |
| --- | --- | --- |
| `STARLIGHT_WARN_TEMP_C` | warning temperature | 82 |
| `STARLIGHT_CRIT_TEMP_C` | temperature at which the program stops | 85 |
| `STARLIGHT_TEMP_CHECK_INTERVAL_SECS` | seconds between checks | 5 |
| `STARLIGHT_MIN_FRAME_INTERVAL_MS` | shortest gap between frames, 0 for none | 100 |
| `STARLIGHT_SIGNAL_SOCKET` | path of the status socket | none |
| `STARLIGHT_SIGNAL_SOCKET_OWNER` | its owner | the effective user |
