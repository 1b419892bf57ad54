//! Renders marine forecasts as fixed-width, box-drawn documents: a week-long
//! swell chart followed by a detail table per day, as styled text that a
//! terminal or a browser renderer turns into a string.
pub mod assembly;
pub mod base;
pub mod border;
pub mod browser;
pub mod client;
pub mod day;
pub mod forecast;
pub mod graph;
pub mod laws;
pub mod render;
pub mod spots;
pub mod terminal;
pub mod text;

pub use base::{Color, Content, Line, Span, Style, View};
pub use border::{Border, RenderError};
pub use browser::Browser;
pub use client::RenderChoice;
pub use day::Day;
pub use forecast::{
    Charts, CompassDirection, Condition, Forecast, LocalTime, Swell, SwellComponent,
    SwellComponents, UnitLength, UnitSpeed, UnitTemperature, UnitType, Wind,
};
pub use graph::Graph;
pub use render::{render, Render};
pub use spots::Spots;
pub use terminal::Terminal;
