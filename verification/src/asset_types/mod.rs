pub mod ppm;
