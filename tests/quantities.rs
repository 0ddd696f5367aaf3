use atomic_calc::quantities::{conversion_path, Conversion, ConversionError, Quantity, QuantityKind};

const SPEED_OF_LIGHT: f64 = 2.998e8;
const AVOGADRO: f64 = 6.022e23;
const PLANCK: f64 = 6.626e-34;

fn apply(c: Conversion, v: f64) -> f64 {
    match c {
        Conversion::WorkFunctionToEnergy => v * 1000.0 / AVOGADRO,
        Conversion::EnergyToWorkFunction => v * AVOGADRO / 1000.0,
        Conversion::EnergyToFrequency => v / PLANCK,
        Conversion::FrequencyToEnergy => v * PLANCK,
        Conversion::FrequencyToWavelength => SPEED_OF_LIGHT / v,
        Conversion::WavelengthToFrequency => SPEED_OF_LIGHT / v,
    }
}

fn convert(kind: QuantityKind, value: f64, precision: usize, to: QuantityKind) -> Result<Quantity<f64>, ConversionError> {
    Quantity::new(kind, value, precision).convert(to, |c: Conversion, v: f64| apply(c, v), |v: &f64| *v == 0.0)
}

fn close(a: f64, b: f64) -> bool {
    (a - b).abs() <= 1e-12 * b.abs()
}

#[test]
fn paths_follow_the_chain() {
    assert_eq!(
        conversion_path(QuantityKind::WorkFunction, QuantityKind::Wavelength),
        vec![
            Conversion::WorkFunctionToEnergy,
            Conversion::EnergyToFrequency,
            Conversion::FrequencyToWavelength
        ]
    );
    assert_eq!(
        conversion_path(QuantityKind::Wavelength, QuantityKind::Energy),
        vec![Conversion::WavelengthToFrequency, Conversion::FrequencyToEnergy]
    );
    assert_eq!(conversion_path(QuantityKind::Frequency, QuantityKind::Frequency), vec![]);
}

#[test]
fn zero_wavelength_and_frequency_are_domain_errors() {
    assert_eq!(
        convert(QuantityKind::Wavelength, 0.0, 2, QuantityKind::Frequency).err(),
        Some(ConversionError::ZeroDivisor)
    );
    assert_eq!(
        convert(QuantityKind::Frequency, 0.0, 2, QuantityKind::Wavelength).err(),
        Some(ConversionError::ZeroDivisor)
    );
    // a zero energy only fails once its frequency is divided by
    assert_eq!(
        convert(QuantityKind::Energy, 0.0, 2, QuantityKind::Wavelength).err(),
        Some(ConversionError::ZeroDivisor)
    );
    assert_eq!(convert(QuantityKind::Energy, 0.0, 2, QuantityKind::Frequency).unwrap().value, 0.0);
}

#[test]
fn precision_survives_a_round_trip() {
    let w = convert(QuantityKind::Frequency, 5.0e14, 3, QuantityKind::Wavelength).unwrap();
    assert_eq!(w.precision, 3);
    assert_eq!(w.kind, QuantityKind::Wavelength);
    let f = convert(w.kind, w.value, w.precision, QuantityKind::Frequency).unwrap();
    assert_eq!(f.precision, 3);
    assert_eq!(f.kind, QuantityKind::Frequency);
}

#[test]
fn round_trips_return_the_value() {
    let lambda = 6.5e-7;
    let f = convert(QuantityKind::Wavelength, lambda, 2, QuantityKind::Frequency).unwrap();
    let back = convert(f.kind, f.value, f.precision, QuantityKind::Wavelength).unwrap();
    assert!(close(back.value, lambda));
    let e = convert(QuantityKind::Energy, 3.0e-19, 2, QuantityKind::Frequency).unwrap();
    let back = convert(e.kind, e.value, e.precision, QuantityKind::Energy).unwrap();
    assert!(close(back.value, 3.0e-19));
    let wf = convert(QuantityKind::WorkFunction, 250.0, 2, QuantityKind::Energy).unwrap();
    let back = convert(wf.kind, wf.value, wf.precision, QuantityKind::WorkFunction).unwrap();
    assert!(close(back.value, 250.0));
}

#[test]
fn composite_equals_composition() {
    let lambda = 4.0e-7;
    let direct = convert(QuantityKind::Wavelength, lambda, 2, QuantityKind::Energy).unwrap().value;
    let composed = (SPEED_OF_LIGHT / lambda) * PLANCK;
    assert_eq!(direct, composed);
    assert!(close(direct, 4.966187e-19));
}

#[test]
fn work_function_gives_threshold_values() {
    // 250 kJ/mol -> 250000 / 6.022e23 J per photon
    let e = convert(QuantityKind::WorkFunction, 250.0, 2, QuantityKind::Energy).unwrap();
    assert!(close(e.value, 250.0 * 1000.0 / AVOGADRO));
    let f = convert(QuantityKind::WorkFunction, 250.0, 2, QuantityKind::Frequency).unwrap();
    assert!(close(f.value, 250.0 * 1000.0 / AVOGADRO / PLANCK));
    let w = convert(QuantityKind::WorkFunction, 250.0, 2, QuantityKind::Wavelength).unwrap();
    assert!(close(w.value, SPEED_OF_LIGHT / (250.0 * 1000.0 / AVOGADRO / PLANCK)));
    assert!(w.value > 4.78e-7 && w.value < 4.79e-7);
}
