//! Escape-time fractals on a fixed-point model of the complex plane.
//!
//! The crate samples a rectangular region of the plane on a grid, classifies
//! every sample by an iterative divergence test, maps the classification to a
//! color through a cyclic palette, and drives the interactive zoom state
//! machine of the graphical front end. Real coordinates are carried as
//! fixed-point numbers (see `fixed`), so every step of the pipeline has an
//! exact contract.
pub mod fixed;
pub mod fractal;
pub mod gui;
pub mod julia;
pub mod mandelbrot;
pub mod rgb;
pub mod text;

pub use fixed::Fx;
pub use fixed::RAW_BOUND;
pub use fixed::SCALE;
pub use fractal::choose_color;
pub use fractal::draw;
pub use fractal::make_image;
pub use fractal::sample;
pub use fractal::Generator;
pub use fractal::Grid;
pub use fractal::GridError;
pub use fractal::Palette;
pub use fractal::Point;
pub use fractal::Renderer;
pub use gui::zoomable_canvas_render;
pub use gui::CanvasDims;
pub use gui::CanvasInfo;
pub use gui::CanvasState;
pub use gui::DraggingState;
pub use gui::InputEvent;
pub use gui::Position;
pub use gui::RenderState;
pub use gui::RGB_HEIGHT;
pub use gui::RGB_WIDTH;
pub use gui::TERM_HEIGHT;
pub use gui::TERM_WIDTH;
pub use julia::Julia;
pub use mandelbrot::Mandelbrot;
pub use rgb::Color;
pub use rgb::Image;
pub use rgb::RGBPalette;
pub use rgb::RGBRenderer;
pub use text::CharPalette;
pub use text::CharRenderer;
