mod std_string;
pub mod json_value;
pub mod depth_first_search;
pub mod breadth_first_search;
pub mod laws;
pub mod randomizer;
pub mod json_type;
pub mod json_generator;
pub mod measurement;
pub mod measurement_types;
pub mod reporter;
pub mod cli_args;
