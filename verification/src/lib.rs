//! Verified core of a cube-sphere planet streaming system: patch addressing,
//! request scheduling, level-of-detail selection and residency bookkeeping.
pub mod patch_key;
pub mod key_set;
pub mod request_queue;
pub mod context;
pub mod lod_walk;
pub mod registry;
pub mod asset_state;
pub mod scheduler;
pub mod queue_run;
pub mod text;
pub mod manifest;
pub mod biome;
pub mod menus;
pub mod hashing;
pub mod terrain_grid;
pub mod local_patch;
pub mod mesh_topology;
pub mod camera_modes;
pub mod editor_camera;
pub mod icosphere;
pub mod patch_materials;
pub mod dev_input;
pub mod planet_lod;
pub mod model_visuals;
pub mod asset_paths;
pub mod starfield;
