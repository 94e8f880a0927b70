//! The PWM controllers of hwmon drivers (see [`crate::controllers::pwm`]).

pub use crate::controllers::pwm::Pwm;
