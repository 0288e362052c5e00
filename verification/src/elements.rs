//! The record encoders of the container's binary layout: file header,
//! per-image sub-header, binary element, image, and trailer.

pub mod encode;

mod prefix;
mod suffix;
mod target_prefix;
mod image;
mod image_element;

pub use image::Image;
pub use image::lemma_elements_bytes_len;
pub use image::lemma_image_bytes_len;
pub use image::lemma_image_size_ignores_name;
pub use image::spec_elements_bytes;
pub use image::spec_elements_size;
pub use image_element::ImageElement;
pub use image_element::lemma_image_element_bytes_len;
pub use prefix::Prefix;
pub use prefix::lemma_prefix_bytes_len;
pub use suffix::Suffix;
pub use suffix::lemma_suffix_bytes_len;
pub use target_prefix::TargetPrefix;
pub use target_prefix::lemma_target_prefix_bytes_len;
pub use target_prefix::spec_name_bytes;
pub use target_prefix::spec_name_field;
