pub mod canvas;
