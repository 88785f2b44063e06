//! The outputs that the functions of the locomotive switch.
pub mod handler;
