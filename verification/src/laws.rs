//! What holds of the library as a whole, over all inputs and all sequences of
//! requests.
pub mod answers;
pub mod phases;
pub mod ranges;
pub mod requests;
pub mod terms;
pub mod tokens;
pub mod tunnels;
pub mod vocabulary;
