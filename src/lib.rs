//! Atomic and photoelectric quantities: the conversion chain between work
//! function, energy, frequency and wavelength; electronic transition
//! energies; electron configurations by naive shell filling; and the reading
//! of typed answers.

pub mod configuration;
pub mod constants;
pub mod decimal;
pub mod elements;
pub mod quantities;
pub mod readers;
pub mod transition;
