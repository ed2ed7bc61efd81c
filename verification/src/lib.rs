//! The routing application's editing, listing, map and PP logic, kept apart
//! from drawing: option menus, event editors, the route list's selection
//! and row layout, the PP ledger, the map's step geometry and the filters.

pub mod text;
pub mod option_menu;
pub mod mon_order;
pub mod keynav;
pub mod pp_ledger;
pub mod pp_walk;
pub mod event_kind;
pub mod event_draft;
pub mod names;
pub mod editors;
pub mod inline_creator;
pub mod route_rows;
pub mod quick_add;
pub mod map_tools;
pub mod map_chunks;
pub mod map_view;
pub mod map_finder;
pub mod screenshot;
pub mod pages;
pub mod quick_start;
pub mod new_route;
pub mod details;
pub mod route_index;
pub mod map_state;
pub mod map_export;
pub mod map_list;
pub mod map_nav;
pub mod map_cards;
pub mod atlas;
pub mod recorder_status;
pub mod list_controls;
