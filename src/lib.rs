//! Synthesis of PBR texture channels (height, normal, roughness) from an
//! albedo image, and packing of channels into a BC3-compressed DDS container.
pub mod channel_packer;
pub mod dds;
pub mod equalize;
pub mod guided;
pub mod height_map;
pub mod normal_map;
pub mod pyramid;
pub mod raster;
pub mod roughness_map;

pub use channel_packer::{ChannelPacker, PackError};
pub use height_map::HeightMapGenerator;
pub use normal_map::NormalMapGenerator;
pub use roughness_map::RoughnessMapGenerator;
pub use raster::{GrayImage, RgbImage, RgbaImage};
