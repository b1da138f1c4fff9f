//! A single-project task tracker: a `Project` owns categories, tasks and
//! users; tasks reference their category and their assigned users by id.
//! Every mutation keeps the aggregate well formed: ids stay pairwise
//! distinct within each collection and no reference dangles.
use vstd::prelude::*;

pub mod assign;
pub mod categories;
pub mod checklist;
mod clock;
pub mod duetime;
pub mod errors;
pub mod ids;
pub mod laws;
pub mod listing;
pub mod models;
pub mod project;
pub mod queries;
pub mod seq_facts;
pub mod strutil;
pub mod tasks;
pub mod textfmt;
pub mod users;

pub use duetime::display_due_date_time;
pub use duetime::DueStyle;
pub use errors::EntityKind;
pub use errors::ProjectError;
pub use ids::get_unused_id;
pub use listing::get_categories_list;
pub use listing::get_tasks_list;
pub use listing::get_tasks_list_with_categories;
pub use listing::get_users_assigned_mod_list;
pub use listing::get_users_mod_list;
pub use listing::CategoryItem;
pub use listing::TaskItem;
pub use listing::UserItem;
pub use models::Category;
pub use models::CategoryView;
pub use models::CheckListItem;
pub use models::CheckListItemView;
pub use models::Project;
pub use models::ProjectView;
pub use models::Task;
pub use models::TaskView;
pub use models::User;
pub use models::UserView;
pub use strutil::str_eq;
pub use textfmt::center_align;
pub use textfmt::format_description;
pub use textfmt::left_align;
pub use textfmt::to_segments;
pub use textfmt::truncate;
pub use textfmt::truncate_then_center_align;

verus! {

} // verus!
