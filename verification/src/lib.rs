//! Unfurls links to research papers shared in a chat: recognises the paper
//! archive of a link, reads the paper's abstract page, looks for the same
//! paper on arXiv, and builds the message attachment that describes it.
//!
//! `unfurl` holds the steps; the caller fetches the pages they name.
pub mod text;
pub mod numbers;
pub mod html;
pub mod query;
pub mod calendar;
pub mod links;
pub mod dates;
pub mod pages;
pub mod article;
pub mod attachment;
pub mod feed;
pub mod source;
pub mod unfurl;
pub mod laws;
