//! Verified core of the Zhitiku desktop question bank: bounded binary and
//! text decoders for Word/MathType/WMF content, licensing decisions and
//! restore-request validation.

pub mod diagnostic;
pub mod error;
pub mod raster;
pub mod text;
pub mod wmf;
pub mod mtef;
pub mod latex;
pub mod mathtype;
pub mod licensing;
pub mod restore;
pub mod types;
pub mod limits;
pub mod package;
pub mod archive;
pub mod images;
pub mod docx;
pub mod omml;
pub mod template;
pub mod anchors;
pub mod db;
pub mod xml;
pub mod xml_reader;
pub mod markers;
pub mod document;
pub mod relationships;
pub mod opc;
pub mod numbers;
pub mod page_setup;
pub mod theme;
pub mod side_seal;
pub mod template_config;
pub mod template_styles;
pub mod template_layout;
pub mod export;
pub mod template_sanitize;
pub mod template_configure;
pub mod hex_bytes;
pub mod mini_cloud;
