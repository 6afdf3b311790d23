pub mod adjugate;
pub mod array_base;
pub mod bounds;
pub mod color_rgb;
pub mod coordinates4;
pub mod dot_product;
pub mod exact;
pub mod laws;
pub mod matrix;
pub mod matrix_rotations;
pub mod matrix_scaling;
pub mod matrix_shearing;
pub mod matrix_transforms;
pub mod matrix_translations;
pub mod model;
pub mod scalar;
