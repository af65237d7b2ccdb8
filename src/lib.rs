//! A micromouse maze simulator: the maze model, the discrete runner, the
//! fixed-point pose and motion model, the virtual distance sensors and the
//! command processor that answers the robot protocol.

pub mod maze;
pub mod runner;
pub mod position;
pub mod simulator;
pub mod communication;
pub mod distance_sensors;
pub mod context;
pub mod environment;
pub mod mazefile;
