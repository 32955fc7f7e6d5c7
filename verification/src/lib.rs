pub mod act_laws;
pub mod bar_laws;
pub mod build_laws;
pub mod cli;
pub mod cli_laws;
pub mod clicks;
pub mod cloth;
pub mod collision;
pub mod coloring;
pub mod constraints;
pub mod contact_laws;
pub mod control_bar;
pub mod delete_laws;
pub mod doc;
pub mod doc_delete;
pub mod doc_laws;
pub mod doc_scenario;
pub mod edit_laws;
pub mod editor;
pub mod energy;
pub mod energy_laws;
pub mod frame;
pub mod frame_laws;
pub mod geometry;
pub mod gesture_laws;
pub mod hover;
pub mod kernels;
pub mod kite_builder;
pub mod layout;
pub mod line_order;
pub mod made_laws;
pub mod materials;
pub mod mesh;
pub mod order_laws;
pub mod orientation;
pub mod particles;
pub mod pick_laws;
pub mod pins;
pub mod reading_laws;
pub mod scalar;
pub mod selection;
pub mod session;
pub mod session_laws;
pub mod shapes;
pub mod site_laws;
pub mod snapshot;
pub mod solver;
pub mod staleness;
pub mod state;
pub mod step_laws;
pub mod sweeps;
pub mod text;
pub mod value_laws;
pub mod tools;
pub mod view_laws;
pub mod weld;
pub mod wind;
pub mod wind_laws;
pub mod windviz;
pub mod world;
