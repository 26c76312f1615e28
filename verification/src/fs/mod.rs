pub mod link_map;
