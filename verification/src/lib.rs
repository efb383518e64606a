//! Infrastructure for SEC filings: the exports of the submissions archive, the feed of
//! current filings, and the monitor that reports new ones.
pub mod accessions;
pub mod archive;
pub mod column_laws;
pub mod columns;
pub mod common;
pub mod compression_util;
pub mod construct_submissions_data;
pub mod construct_submissions_metadata;
pub mod csv_laws;
pub mod csv_results;
pub mod document_laws;
pub mod document_results;
pub mod double;
pub mod feed_format;
pub mod feed_laws;
pub mod json;
pub mod metadata_archive;
pub mod metadata_batch;
pub mod metadata_columns;
pub mod metadata_laws;
pub mod metadata_results;
pub mod monitor;
pub mod monitor_laws;
pub mod monitor_results;
pub mod rss;
pub mod submissions;
pub mod text;
pub mod text_laws;
pub mod text_results;
pub mod xml;
