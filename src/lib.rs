//! Integer side of a single-sphere ray tracer: the textual PPM image
//! format (header and pixel records), the image size derived from an aspect
//! ratio, and the order in which pixels are scanned.
pub mod decimal;
pub mod ppm;
pub mod raster;
