//! Method-level test coverage, estimated from source text alone.
//!
//! Nothing is run. The functions and methods of a repository are read from the
//! syntax trees of its files and told apart as logic and tests. The lines of every
//! test are then searched for names that look like calls of logic declarations, and
//! the logic declarations that are referred to count as tested.
//!
//! The search is a heuristic on names: it knows no types, no overloads and no
//! scopes. Two declarations with one name are tested alike, and a call through a
//! variable is not seen. What the search does on any line is stated exactly, in
//! [`codeanalysis::line_candidates`], and proved of the code that does it.
//!
//! The modules, leaves first:
//!
//! - [`text`]: texts as sequences of characters: trimming, searching, cutting;
//! - [`utils`]: declarations, settings and the other types that are handed around;
//! - [`syntax`]: syntax trees, and what a tree says of the declarations in it;
//! - [`parsing`]: syntax trees from source text, by the tree-sitter parsers;
//! - [`calls`]: the names that a line may refer to;
//! - [`csharp`], [`js`]: what is particular to languages with classes and to
//!   JavaScript;
//! - [`codeanalysis`]: settings, matching, and the analysis as a whole;
//! - [`coverage`]: the counts and the percentage;
//! - [`laws`]: what holds of all of this, proved.

pub mod calls;
pub mod codeanalysis;
pub mod coverage;
pub mod csharp;
pub mod js;
pub mod laws;
pub mod parsing;
pub mod syntax;
pub mod text;
pub mod utils;
