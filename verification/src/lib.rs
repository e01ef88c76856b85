//! Verified core of an archiver that downloads galleries from nhentai.net and
//! packs them into CBZ files: parsing of identifiers and image types, the
//! layout of the library on disk, the rows written to the metadata database,
//! and the decisions taken between network and file operations.
pub mod text;
pub mod decimal;
pub mod error;
pub mod api_response;
pub mod config;
pub mod hentai;
pub mod search_api;
pub mod get_hentai_id_list;
pub mod main_inner;
