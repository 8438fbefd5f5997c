//! Extraction core of an image-search scraper: locating image-URL literals
//! embedded in raw HTML, normalizing and validating them, deriving a source
//! domain per result, and assembling the final report.
pub mod domain;
pub mod extract;
pub mod normalize;
pub mod report;
pub mod text;
pub mod validate;
