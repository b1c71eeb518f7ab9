# Transom client

The Windows client of Transom, which shows single macOS windows, streamed from a Mac, as
native Windows windows. A window that is W by H pixels on the PC is made W by H pixels on
the Mac and blitted one to one, so nothing is ever resampled but for the moment of a
drag.

The library under `src/` decides everything that can be decided from plain values, and
Verus proves that it does what its contracts state. It holds no socket, no window and no
device. What has to be done comes back as a list of effects, and what happened is handed
in as events.

| Module | What it decides |
| --- | --- |
| `wire` | framing, JSON, control and video messages, base64 |
| `model`, `runner`, `trace` | the windows that the host shares, and the headless runner |
| `connections`, `discovery`, `services`, `address` | saved Macs and mDNS discovery |
| `hevc`, `win::decode`, `win::pixels`, `win::video_router` | HEVC units, the decoder's queue, NV12 pixels, streams |
| `resize_sync`, `window_fit`, `win::proxy`, `win::frame` | geometry of the native windows |
| `win::app`, `win::turn`, `win::overview` | the application: sessions, proxies, messages, video |
| `win::dashboard`, `win::commands`, `win::search`, `win::shell`, `win::controls` | the dashboard: layout, commands, drawing |

Laws, named `law_...`, relate several functions; each stands beside what it speaks of, or
in a module whose name ends in `_laws`.

The program under `app/` holds `main`, the sockets, the files, the threads and Win32. It
performs the effects and computes what is floating point.
