//! Fan controllers: the PWM outputs found under `/sys/class/hwmon` and the fans of NVIDIA GPUs.

pub mod nvml;
pub mod pwm;

pub use self::pwm::Pwm;
