//! Line, word, character and byte counting over text, with the policy that
//! picks which counts are reported and the assembly of the report line.

pub mod count;
pub mod mode;
pub mod report;
