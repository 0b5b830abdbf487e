//! Coverage-range estimation for low/medium-frequency ground-wave
//! transmitters.
//!
//! A terrain path is an ordered sequence of homogeneous conductivity
//! segments (ground or sea).  Field strength at a distance along a mixed
//! path is obtained by combining two one-way passes of Millington's
//! method over a point-to-point propagation model, and a search finds the
//! farthest distance at which the field strength stays at or above a
//! usable threshold.
//!
//! All physical quantities are carried as fixed-point integers:
//! distances in millimetres, field strengths and losses in micro-decibels,
//! so that every computation is exact and verifiable.  The propagation
//! model itself is abstracted behind the [`params::FieldStrengthModel`]
//! trait; a deterministic piecewise-linear model is provided for use
//! without an external numerical library.

pub mod batch;
pub mod chart;
pub mod evaluate;
pub mod model;
pub mod params;
pub mod parse;
pub mod profile;
pub mod search;
pub mod terrain;
