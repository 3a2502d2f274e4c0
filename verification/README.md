# Alpine weather route

A service that takes an uploaded GPX cycling route, samples points along it,
and shows Open-Meteo hourly forecasts for the time the rider reaches each
point; it also serves an overview of forecasts for a set of Alpine places.

- `src/` is the verified library (Verus):
  - `time`: UTC instants and reading RFC 3339 timestamps and hour labels.
  - `route`: reading a GPX upload into the points and the name of a trip.
  - `weather`: turning forecast replies into hourly forecasts, splitting the
    locations into requests of forty, and the query each request sends.
  - `api`: the upload form, its checks and error answers, and the store of
    uploaded trips.
- `app/` is the web server around it: HTTP routing, multipart upload, the
  requests to Open-Meteo, JSON, and the floating-point geometry (distances,
  ascent, sampling every few kilometres, arrival times).
- `tests/` exercises the library.
