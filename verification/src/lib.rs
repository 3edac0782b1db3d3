pub mod bytes;
pub mod central_dir_file_header;
pub mod compression;
pub mod crc32;
pub mod data_descriptor;
pub mod date_time;
pub mod eof_central_dir;
pub mod errors;
pub mod local_file_header;
pub mod mem_map;
pub mod options;
pub mod winzip_aes;
pub mod zip_item;
pub mod zip_metadata;
pub mod zip_crypto;
pub mod zip_creator;
pub mod zip_file;
pub mod zip_item_creator;
