use stormy_skies::data::measurement::with_unit;
use stormy_skies::data::Measurement;
use stormy_skies::data::Pressure;
use stormy_skies::data::Speed;
use stormy_skies::data::Temperature;

fn printed(bits: u32) -> String {
    f32::from_bits(bits).to_string()
}

#[test]
fn units_are_fixed() {
    assert_eq!(Temperature::Celsius(0).unit(), "°C");
    assert_eq!(Speed::KilometersPerHour(0).unit(), "km/h");
    assert_eq!(Pressure::HectoPascal(0).unit(), "hPa");
}

#[test]
fn measurements_keep_their_number() {
    let bits = 18.5f32.to_bits();
    assert_eq!(Temperature::Celsius(bits).to_bits(), bits);
    assert_eq!(Speed::KilometersPerHour(bits).to_bits(), bits);
    assert_eq!(Pressure::HectoPascal(bits).to_bits(), bits);
    assert_eq!(f32::from_bits(Temperature::Celsius(bits).to_bits()), 18.5);
    assert_eq!(Temperature::Celsius(bits), Temperature::Celsius(bits));
    assert_ne!(Temperature::Celsius(bits), Temperature::Celsius(bits + 1));
}

#[test]
fn a_temperature_is_written_without_a_blank() {
    let temperature = Temperature::Celsius(18.5f32.to_bits());
    assert_eq!(temperature.format(&printed(temperature.to_bits())), "18.5°C");
    let frost = Temperature::Celsius((-3.0f32).to_bits());
    assert_eq!(frost.format(&printed(frost.to_bits())), "-3°C");
    assert_eq!(frost.format(""), "°C");
}

#[test]
fn speed_and_pressure_are_written_with_a_blank() {
    let speed = Speed::KilometersPerHour(12.0f32.to_bits());
    assert_eq!(speed.format(&printed(speed.to_bits())), "12 km/h");
    let pressure = Pressure::HectoPascal(1013.0f32.to_bits());
    assert_eq!(pressure.format(&printed(pressure.to_bits())), "1013 hPa");
    let low = Pressure::HectoPascal(987.6f32.to_bits());
    assert_eq!(low.format(&printed(low.to_bits())), "987.6 hPa");
    assert_eq!(with_unit("1", "m"), "1 m");
    assert_eq!(with_unit("", ""), " ");
}
