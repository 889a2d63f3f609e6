//! Block-level structure of Markdown documents: the text of a document is
//! split into lines, the lines are grouped into raw spans by a state machine
//! with one line of lookahead, and each span is refined into a typed section.

pub mod laws;
pub mod line;
pub mod matcher;
pub mod node;
pub mod parser;
pub mod section;
pub mod span;
pub mod text;

pub use line::LineKind;
pub use matcher::ParseError;
pub use node::Node;
pub use parser::{Mode, Parser, PreprocessedNode};
pub use section::Section;
pub use span::Preprocessor;
