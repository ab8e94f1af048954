pub mod rng;
pub mod seqs;
pub mod world;
pub mod cargo;
pub mod loot;
pub mod game;
pub mod controls;
pub mod waves;
pub mod weapon;
