//! Logic of a per-app volume knob: the wire protocol that the device and the
//! PC companion share, the device's behaviour and the companion's behaviour.

pub mod audio;
pub mod backlight;
pub mod board;
pub mod codec;
pub mod config;
pub mod device;
pub mod encoder;
pub mod haptic;
pub mod icons;
pub mod messages;
pub mod nvs_config;
pub mod screen;
pub mod sh8601;
pub mod stuffing;
pub mod text;
pub mod touch;
pub mod tray_app;
pub mod usb_serial;
pub mod wifi_tcp;
pub mod worker;
