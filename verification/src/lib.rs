pub mod fourier_transform;
pub mod kernel;
pub mod noise;
pub mod pipeline;
pub mod sized_image;
pub mod vector;
