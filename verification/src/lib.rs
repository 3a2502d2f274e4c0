//! Verified core of the Alpine weather route service: reading uploaded GPX
//! routes, turning Open-Meteo replies into hourly forecasts, planning the
//! forecast requests, and the rules that govern trip uploads and lookups.

pub mod time;
pub mod api;
pub mod route;
pub mod weather;


