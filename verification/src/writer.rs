pub mod indented_writer;
