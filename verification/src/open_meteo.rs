//! The forecast service of Open-Meteo: the address to ask for the weather
//! at a place, and the reading of what it answers.

use crate::data::binary32::is_finite;
use crate::data::compass_direction;
use crate::data::decimal::push_signed_hundredths;
use crate::data::decimal::signed_hundredths_text;
use crate::data::percentage;
use crate::data::wmo_code;
use crate::data::CompassDirection;
use crate::data::Coordinates;
use crate::data::Percentage;
use crate::data::Pressure;
use crate::data::Speed;
use crate::data::Temperature;
use crate::data::Weather;
use crate::data::WeatherRegistry;
use crate::data::WmoCode;
use vstd::prelude::*;
use vstd::string::StringExecFns;

verus! {

/// The weather at a place, every value checked.
#[derive(Clone, Debug)]
pub struct WeatherData {
    pub current_weather: Weather,
    pub current_temperature: Temperature,
    pub current_wind_speed: Speed,
    pub current_wind_direction: CompassDirection,
    pub current_pressure: Pressure,
    pub current_humidity: Percentage,
}

/// The values of the answer's member `current`, as they arrive.  Each
/// number with a fraction is given by its single-precision bit pattern.
#[derive(Clone, Copy, Debug)]
pub struct Current {
    pub weather_code: u8,
    pub temperature_2m: u32,
    pub wind_speed_10m: u32,
    pub wind_direction_10m: u32,
    pub surface_pressure: u32,
    pub relative_humidity_2m: u8,
}

/// The answer of the service.
#[derive(Clone, Copy, Debug)]
pub struct Response {
    pub current: Current,
}

#[derive(Clone, Debug)]
pub enum Error {
    /// The weather code of the answer is no WMO code.
    InvalidWmoCode(wmo_code::Error),
    /// The registry in use does not know the weather code of the answer.
    WmoCodeNotRegistered(WmoCode),
    /// The wind direction of the answer is no angle.
    InvalidCompassDirection(compass_direction::Error),
    /// The humidity of the answer is no percentage.
    InvalidPercentage(percentage::Error),
    /// The service could not be reached, or its answer could not be read;
    /// the text says what went wrong.
    ApiCall(String),
}

/// The address that answers with the current weather at the place with
/// the given latitude and longitude, both in hundredths of a degree.
pub open spec fn url_text(latitude: int, longitude: int) -> Seq<char> {
    "https://api.open-meteo.com/v1/forecast?latitude="@ + signed_hundredths_text(latitude)
        + "&longitude="@ + signed_hundredths_text(longitude)
        + "&current=weather_code,temperature_2m,wind_speed_10m,wind_direction_10m,surface_pressure,relative_humidity_2m"@
}

/// The address to ask for the current weather at `coordinates`.
pub fn request_url(coordinates: Coordinates) -> (url: String)
    ensures
        url@ == url_text(coordinates.latitude@, coordinates.longitude@),
{
    let mut url = String::from_str("https://api.open-meteo.com/v1/forecast?latitude=");
    push_signed_hundredths(&mut url, coordinates.latitude.hundredths());
    url.append("&longitude=");
    push_signed_hundredths(&mut url, coordinates.longitude.hundredths());
    url.append(
        "&current=weather_code,temperature_2m,wind_speed_10m,wind_direction_10m,surface_pressure,relative_humidity_2m",
    );
    assert(url@ =~= url_text(coordinates.latitude@, coordinates.longitude@));
    url
}

/// What is wrong with the values of an answer, if anything: the weather
/// code is looked at first, then the wind direction, then the humidity.
pub open spec fn defect(current: Current) -> Option<Error> {
    if current.weather_code > wmo_code::MAX_VALUE {
        Some(Error::InvalidWmoCode(wmo_code::Error::InvalidValue(current.weather_code)))
    } else if !is_finite(current.wind_direction_10m) {
        Some(
            Error::InvalidCompassDirection(
                compass_direction::Error::InvalidDegrees(current.wind_direction_10m),
            ),
        )
    } else if current.relative_humidity_2m > percentage::MAX_VALUE {
        Some(Error::InvalidPercentage(percentage::Error::InvalidValue(current.relative_humidity_2m)))
    } else {
        None
    }
}

/// Reads an answer of the service: checks each value and looks the weather
/// code up in the registry.  The first value that is not valid gives the
/// error, and nothing else comes back.
pub fn decode(weather_registry: &WeatherRegistry, response: &Response) -> (result: Result<
    WeatherData,
    Error,
>)
    ensures
        match result {
            Ok(data) => {
                let current = response.current;
                &&& defect(current) is None
                &&& data.current_weather.description@ == weather_registry.descriptions()[current.weather_code]
                &&& data.current_weather.icon_path@ == weather_registry.icon_paths()[current.weather_code]
                &&& data.current_temperature == Temperature::Celsius(current.temperature_2m)
                &&& data.current_wind_speed == Speed::KilometersPerHour(current.wind_speed_10m)
                &&& CompassDirection::spec_from_degrees(current.wind_direction_10m) == Ok::<
                    CompassDirection,
                    compass_direction::Error,
                >(data.current_wind_direction)
                &&& data.current_pressure == Pressure::HectoPascal(current.surface_pressure)
                &&& data.current_humidity@ == current.relative_humidity_2m
            },
            Err(error) => defect(response.current) == Some(error),
        },
{
    let current_wmo_code = match WmoCode::try_from(response.current.weather_code) {
        Ok(code) => code,
        Err(error) => {
            return Err(Error::InvalidWmoCode(error));
        },
    };
    let current_weather = weather_registry.get(current_wmo_code);
    let current_temperature = Temperature::Celsius(response.current.temperature_2m);
    let current_wind_speed = Speed::KilometersPerHour(response.current.wind_speed_10m);
    let current_wind_direction = match CompassDirection::from_degrees(
        response.current.wind_direction_10m,
    ) {
        Ok(direction) => direction,
        Err(error) => {
            return Err(Error::InvalidCompassDirection(error));
        },
    };
    let current_pressure = Pressure::HectoPascal(response.current.surface_pressure);
    let current_humidity = match Percentage::try_from(response.current.relative_humidity_2m) {
        Ok(percentage) => percentage,
        Err(error) => {
            return Err(Error::InvalidPercentage(error));
        },
    };
    Ok(
        WeatherData {
            current_weather,
            current_temperature,
            current_wind_speed,
            current_wind_direction,
            current_pressure,
            current_humidity,
        },
    )
}

} // verus!
