pub mod artifact;
pub mod cenotaph;
pub mod edict;
pub mod epoch;
pub mod etching;
pub mod fields;
pub mod flag;
pub mod flaw;
pub mod height;
pub mod instruction;
pub mod message;
pub mod opcodes;
pub mod push_bytes;
pub mod rune;
pub mod rune_id;
pub mod runestone;
pub mod sat;
pub mod script;
pub mod tag;
pub mod terms;
pub mod varint;

pub use artifact::{Artifact, ArtifactModel};
pub use cenotaph::Cenotaph;
pub use edict::Edict;
pub use etching::Etching;
pub use flaw::Flaw;
pub use rune::Rune;
pub use rune_id::RuneId;
pub use runestone::Runestone;
pub use script::decipher;
pub use terms::Terms;
