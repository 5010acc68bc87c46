pub mod binary32;

pub mod compass_direction;
pub use compass_direction::CompassDirection;

pub mod coordinates;
pub use coordinates::{Coordinate, Coordinates, Latitude, Longitude};

pub mod decimal;

pub mod measurement;
pub use measurement::Measurement;

pub mod percentage;
pub use percentage::Percentage;

pub mod pressure;
pub use pressure::Pressure;

pub mod sources;

pub mod speed;
pub use speed::Speed;

pub mod temperature;
pub use temperature::Temperature;

pub mod weather;
pub use weather::{Weather, WeatherRegistry};

pub mod wmo_code;
pub use wmo_code::WmoCode;
