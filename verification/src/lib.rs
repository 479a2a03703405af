//! Fetching sequence records by accession: the format catalog, accession
//! normalization, request and file naming, first-chunk content sniffing and
//! the decisions of the download loop, each with a machine-checked contract.

pub mod args;
pub mod download;
pub mod errors;
pub mod text;
pub mod transfer;
pub mod utils;
