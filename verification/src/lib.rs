//! The verified core of Ananke, a mirror of the galaxy of Elite Dangerous.

pub mod astar;
pub mod both_ways;
pub mod carrier;
pub mod clause;
pub mod config;
pub mod db;
pub mod distance;
pub mod eddn;
pub mod edmc;
pub mod heap;
pub mod heatmap;
pub mod json;
pub mod legs;
pub mod models;
pub mod neutron;
pub mod order;
pub mod plot;
pub mod progression;
pub mod route;
pub mod search;
pub mod ship;
pub mod sql;
pub mod state;
pub mod station;
pub mod sync;
pub mod system;
pub mod text;
pub mod trail;
pub mod voxel;
pub mod vulkan_astar;
