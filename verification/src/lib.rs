//! Core logic of the fuel station server: database settings and connection
//! state, error texts, session tokens, and the joining of pumps, nozzles,
//! tanks and goods for the operator screen.

pub mod clock;
pub mod jwt;
pub mod laws;
pub mod models;
pub mod objects_of_controllers;
pub mod render_temps;
pub mod station;
pub mod swagger_docs;
pub mod text;
