pub mod gamestand;
pub mod poslocal;
pub mod posserver;
