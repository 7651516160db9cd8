//! Sorts the files of source directories into subdirectories of a
//! destination, chosen by their extension or content type.

pub mod classify;
pub mod settings;
pub mod sorter;

pub use classify::{
    file_extension, find_rule_for_content, find_rule_for_extension, is_hidden, pick_content_rule,
    route_name,
    NameRoute,
};
pub use settings::{backup_name, invalid_name, ConfigRead, LoadAction, Settings, SortPattern};
pub use sorter::{
    check_paths, create_dirs, destination_dirs, plan_file, plan_with_content_rule, FilePlan,
    PathKind, SortError,
};
