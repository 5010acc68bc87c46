use stormy_skies::data::compass_direction;
use stormy_skies::data::percentage;
use stormy_skies::data::wmo_code;
use stormy_skies::data::CompassDirection;
use stormy_skies::data::Coordinates;
use stormy_skies::data::Latitude;
use stormy_skies::data::Longitude;
use stormy_skies::data::Pressure;
use stormy_skies::data::Speed;
use stormy_skies::data::Temperature;
use stormy_skies::data::WeatherRegistry;
use stormy_skies::data::WmoCode;
use stormy_skies::open_meteo::decode;
use stormy_skies::open_meteo::request_url;
use stormy_skies::open_meteo::Current;
use stormy_skies::open_meteo::Error;
use stormy_skies::open_meteo::Response;

const ADDRESS: &str = "https://api.open-meteo.com/v1/forecast";
const FIELDS: &str = "weather_code,temperature_2m,wind_speed_10m,wind_direction_10m,surface_pressure,relative_humidity_2m";

fn place(latitude: f32, longitude: f32) -> Coordinates {
    Coordinates {
        latitude: Latitude::try_from(latitude.to_bits()).unwrap(),
        longitude: Longitude::try_from(longitude.to_bits()).unwrap(),
    }
}

/// The answer of the service, read from its JSON text.
fn read(text: &str) -> Response {
    let value: serde_json::Value = serde_json::from_str(text).unwrap();
    let current = &value["current"];
    let number = |name: &str| (current[name].as_f64().unwrap() as f32).to_bits();
    Response {
        current: Current {
            weather_code: current["weather_code"].as_u64().unwrap() as u8,
            temperature_2m: number("temperature_2m"),
            wind_speed_10m: number("wind_speed_10m"),
            wind_direction_10m: number("wind_direction_10m"),
            surface_pressure: number("surface_pressure"),
            relative_humidity_2m: current["relative_humidity_2m"].as_u64().unwrap() as u8,
        },
    }
}

fn printed(bits: u32) -> String {
    f32::from_bits(bits).to_string()
}

fn answer(weather_code: u8, wind_direction: f32, humidity: u8) -> Response {
    Response {
        current: Current {
            weather_code,
            temperature_2m: 18.5f32.to_bits(),
            wind_speed_10m: 12.0f32.to_bits(),
            wind_direction_10m: wind_direction.to_bits(),
            surface_pressure: 1013.0f32.to_bits(),
            relative_humidity_2m: humidity,
        },
    }
}

#[test]
fn an_answer_is_read_into_checked_values() {
    let registry = WeatherRegistry::load().unwrap();
    let coordinates = place(53.33, 10.00);
    assert_eq!(
        request_url(coordinates),
        format!("{}?latitude=53.33&longitude=10&current={}", ADDRESS, FIELDS)
    );
    let response = read(
        "{\"current\":{\"weather_code\":3,\"temperature_2m\":18.5,\"wind_speed_10m\":12.0,\
         \"wind_direction_10m\":270.0,\"surface_pressure\":1013.0,\"relative_humidity_2m\":65}}",
    );
    let data = decode(&registry, &response).unwrap();
    assert_eq!(data.current_wind_direction, CompassDirection::W);
    assert_eq!(data.current_wind_direction.to_string(), "W");
    let temperature = data.current_temperature;
    assert_eq!(temperature.format(&printed(temperature.to_bits())), "18.5°C");
    assert_eq!(data.current_humidity.to_string(), "65%");
    let expected = registry.get(WmoCode::try_from(3).unwrap());
    assert_eq!(data.current_weather.description, expected.description);
    assert_eq!(data.current_weather.icon_path, expected.icon_path);
    assert_eq!(data.current_weather.description, "Overcast");
    assert_eq!(data.current_temperature, Temperature::Celsius(18.5f32.to_bits()));
    assert_eq!(data.current_wind_speed, Speed::KilometersPerHour(12.0f32.to_bits()));
    assert_eq!(data.current_pressure, Pressure::HectoPascal(1013.0f32.to_bits()));
    assert_eq!(data.current_wind_speed.format(&printed(data.current_wind_speed.to_bits())), "12 km/h");
    assert_eq!(data.current_pressure.format(&printed(data.current_pressure.to_bits())), "1013 hPa");
    assert_eq!(data.current_humidity.value(), 65);
}

#[test]
fn the_address_names_the_place_in_decimal() {
    let url = |latitude: f32, longitude: f32| request_url(place(latitude, longitude));
    let expected = |latitude: &str, longitude: &str| {
        format!("{}?latitude={}&longitude={}&current={}", ADDRESS, latitude, longitude, FIELDS)
    };
    assert_eq!(url(0.0, 0.0), expected("0", "0"));
    assert_eq!(url(-33.87, 151.21), expected("-33.87", "151.21"));
    assert_eq!(url(90.0, -180.0), expected("90", "-180"));
    assert_eq!(url(-0.5, 0.07), expected("-0.5", "0.07"));
    assert_eq!(url(40.7, -74.0), expected("40.7", "-74"));
    assert_eq!(url(-0.001, -0.004), expected("0", "0"));
}

#[test]
fn the_address_agrees_with_the_printed_quotients() {
    for step in -90i32..=90 {
        let latitude = ((step * 100 + step % 7) as f32) / 100.;
        let longitude = ((step * 199 - step % 13) as f32) / 100.;
        let coordinates = place(latitude.clamp(-90., 90.), longitude);
        let expected = format!(
            "{}?latitude={}&longitude={}&current={}",
            ADDRESS,
            latitude.clamp(-90., 90.),
            longitude,
            FIELDS
        );
        assert_eq!(request_url(coordinates), expected);
    }
}

#[test]
fn a_weather_code_that_is_none_fails_the_answer() {
    let registry = WeatherRegistry::load().unwrap();
    for weather_code in [100u8, 101, 255] {
        match decode(&registry, &answer(weather_code, 270.0, 65)) {
            Err(Error::InvalidWmoCode(wmo_code::Error::InvalidValue(value))) => {
                assert_eq!(value, weather_code)
            }
            other => panic!("{:?}", other),
        }
    }
    assert!(decode(&registry, &answer(99, 270.0, 65)).is_ok());
    assert!(decode(&registry, &answer(0, 270.0, 65)).is_ok());
}

#[test]
fn a_wind_direction_that_is_none_fails_the_answer() {
    let registry = WeatherRegistry::load().unwrap();
    for direction in [f32::NAN, f32::INFINITY, f32::NEG_INFINITY] {
        match decode(&registry, &answer(3, direction, 65)) {
            Err(Error::InvalidCompassDirection(compass_direction::Error::InvalidDegrees(bits))) => {
                assert_eq!(bits, direction.to_bits())
            }
            other => panic!("{:?}", other),
        }
    }
    assert_eq!(
        decode(&registry, &answer(3, -90.0, 65)).unwrap().current_wind_direction,
        CompassDirection::W
    );
}

#[test]
fn a_humidity_that_is_none_fails_the_answer() {
    let registry = WeatherRegistry::load().unwrap();
    for humidity in [101u8, 200, 255] {
        match decode(&registry, &answer(3, 270.0, humidity)) {
            Err(Error::InvalidPercentage(percentage::Error::InvalidValue(value))) => {
                assert_eq!(value, humidity)
            }
            other => panic!("{:?}", other),
        }
    }
    assert_eq!(decode(&registry, &answer(3, 270.0, 100)).unwrap().current_humidity.value(), 100);
    assert_eq!(decode(&registry, &answer(3, 270.0, 0)).unwrap().current_humidity.value(), 0);
}

#[test]
fn the_first_value_that_is_not_valid_gives_the_error() {
    let registry = WeatherRegistry::load().unwrap();
    assert!(matches!(
        decode(&registry, &answer(100, f32::NAN, 101)),
        Err(Error::InvalidWmoCode(_))
    ));
    assert!(matches!(
        decode(&registry, &answer(99, f32::NAN, 101)),
        Err(Error::InvalidCompassDirection(_))
    ));
    assert!(matches!(
        decode(&registry, &answer(99, 0.0, 101)),
        Err(Error::InvalidPercentage(_))
    ));
}

#[test]
fn errors_of_the_call_itself_are_for_the_caller_to_report() {
    let unreachable = Error::ApiCall(String::from("no route to host"));
    assert!(matches!(unreachable.clone(), Error::ApiCall(message) if message == "no route to host"));
    let unknown = Error::WmoCodeNotRegistered(WmoCode::try_from(42).unwrap());
    assert!(matches!(unknown, Error::WmoCodeNotRegistered(code) if code.value() == 42));
    let registry = WeatherRegistry::load().unwrap();
    for weather_code in 0..=99u8 {
        assert!(decode(&registry, &answer(weather_code, 270.0, 65)).is_ok());
    }
}

#[test]
fn numbers_that_are_none_pass_where_nothing_bounds_them() {
    let registry = WeatherRegistry::load().unwrap();
    let mut response = answer(3, 270.0, 65);
    response.current.temperature_2m = f32::NAN.to_bits();
    response.current.wind_speed_10m = f32::INFINITY.to_bits();
    response.current.surface_pressure = (-1.0f32).to_bits();
    let data = decode(&registry, &response).unwrap();
    assert_eq!(data.current_temperature.to_bits(), f32::NAN.to_bits());
    assert_eq!(data.current_wind_speed.to_bits(), f32::INFINITY.to_bits());
    assert_eq!(data.current_pressure.to_bits(), (-1.0f32).to_bits());
}
