//! Small command-line text tools, verified.
//!
//! The centre is a `tail` engine: the count selector (`selector`), the
//! selection of the last or the later lines or bytes of a stream and the
//! output of a batch of files with headers (`tail`), and the same two passes
//! over a stream read in chunks (`stream`). Beside it stand the decisions of
//! the companion tools: `cal` arguments (`cal`), `comm`,
//! fortune files (`fortune`), `grep` and `find` filters (`pattern`), `ls`
//! permission strings (`permissions`), `uniq` and `wc`.

use vstd::prelude::*;

pub mod selector;
pub mod tail;
pub mod stream;
pub mod permissions;
pub mod wc;
pub mod uniq;
pub mod cal;
pub mod fortune;
pub mod comm;
pub mod pattern;

verus! {

/// The texts of a list of strings.
pub open spec fn views(lines: Seq<String>) -> Seq<Seq<char>> {
    lines.map_values(|s: String| s@)
}

} // verus!
