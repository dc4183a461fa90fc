pub mod cli;
pub mod fonts;
pub mod google_fonts;
pub mod html;
pub mod images;
pub mod node;
pub mod path;
pub mod text;
