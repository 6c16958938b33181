pub mod byte_search;
pub mod xml_name_token;
