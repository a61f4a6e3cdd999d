pub mod consts;
pub mod column;
pub mod bits;
pub mod grid;
pub mod action;
pub mod score;
pub mod board;
pub mod rand;
pub mod player;
pub mod replay;
pub mod rensa_plan;
pub mod policy;
