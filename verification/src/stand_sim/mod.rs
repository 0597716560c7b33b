//! The game stand payment simulator: a stand that a game asks for payments,
//! with a card reader that an operator "taps". The decisions live here; the
//! program around it reads requests, prints the notes and sends the replies.
pub mod commit;
pub mod laws;
pub mod machine;
pub mod model;
pub mod notes;
pub mod table;
