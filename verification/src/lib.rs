//! Layout and model logic for the tui-lipan widgets: grids, flows, Gantt
//! timelines, file-tree change decorations and the geometry they share.

pub mod changed_tree;
pub mod element;
pub mod event;
pub mod explorer;
pub mod file_icon;
pub mod file_tree;
pub mod file_tree_component;
pub mod file_tree_state;
pub mod flow;
pub mod flowchart;
pub mod flowchart_boxes;
pub mod flowchart_build;
pub mod flowchart_edges;
pub mod flowchart_label;
pub mod flowchart_place;
pub mod flowchart_route;
pub mod flowchart_rank;
pub mod flowchart_layout;
pub mod flowchart_output;
pub mod frame;
pub mod gantt;
pub mod git;
pub mod graph;
pub mod graph_layout;
pub mod graph_node;
pub mod gantt_calendar;
pub mod gantt_date;
pub mod gantt_render;
pub mod gantt_timeline;
pub mod grid;
pub mod heatmap;
pub mod home;
pub mod lexpath;
pub mod projection;
pub mod provided_changes;
pub mod style;
pub mod text;
pub mod tree_projection;
pub mod tree_row;
pub mod width;
pub mod wrap;
