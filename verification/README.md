# screencast_receiver

The verified core of a desktop screen-cast receiver: a DLNA/UPnP media
renderer (SSDP discovery, device and service descriptions, SOAP control of
AVTransport / RenderingControl / ConnectionManager, GENA eventing) and a small
web service through which a phone sends a video URL to play.

- `src/` is the library, written in Verus and verified: request framing and
  routing, header and SOAP parsing, every message the renderer sends, the
  subscriber table, service state, interface selection, the RFC 1123 date,
  firewall command text and the settings decisions.
- `app/` is the desktop application around it (Tauri commands and state,
  sockets and threads, the SQLite store, the video player plug-in).
- `tests/` runs the library on concrete inputs.
