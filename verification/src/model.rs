//! The typed inspect model: one record type per entity of the two
//! document shapes (container inspect, image inspect).

pub mod container;
pub mod image;

pub use container::AttrPrinter;
pub use container::Config;
pub use container::Device;
pub use container::DockerInspect;
pub use container::HostConfig;
pub use container::NetworkSettings;
pub use container::PortInfo;
pub use container::Ports;
pub use container::RestartPolicy;
pub use image::ImageConfig;
pub use image::ImageHostConfig;
pub use image::ImageInspect;
