# Rusty ESP Knob

A per-app volume controller: a knob with a round touch display that shows the
audio sessions of a PC, changes their volume and mutes them, and a companion
program on the PC.

- `src/` is the library, verified with Verus: the wire protocol, the device's
  behaviour and the companion's behaviour.
- `app/` is what touches the world: the companion's command line, tray, audio
  and serial port, and under `app/firmware/` the device's drawing and hardware.
- `tests/` runs the library.

## The library

| Module | What it holds |
| --- | --- |
| `messages`, `codec`, `stuffing` | messages, framing with a CRC and byte stuffing, streaming decoder |
| `device` | the device's main loop as steps from state and event to state and actions |
| `backlight`, `encoder`, `touch`, `haptic` | the device's parts |
| `screen`, `sh8601` | layout and volume bar, framebuffer and transfers to the display |
| `usb_serial`, `wifi_tcp`, `nvs_config` | the device's links and stored credentials |
| `worker` | the companion's session with a device |
| `tray_app`, `config`, `audio`, `icons` | the companion's menu, settings, sessions and icons |
| `text`, `board` | bounded text and decimals, pin assignments |

Public proof functions named `law_*` state what holds across functions: that a
frame gives its payload back and a corrupted one does not, that every message
to the device is answered once, that a touch on a dark screen only wakes it,
that a flush brings every row to the display exactly once, and more.
