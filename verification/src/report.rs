//! How a fatal error is reported.

use crate::text::texts;
use crate::path::{append, bytes_of};
use vstd::prelude::*;
use vstd::slice::slice_to_vec;

verus! {

/// The line that reports layer `i` of an error: the outermost layer is the
/// error itself, every layer below it is a cause.
pub open spec fn report_line(layers: Seq<Seq<u8>>, i: int) -> Seq<u8> {
    if i == 0 {
        bytes_of("Error: ") + layers[i]
    } else {
        bytes_of("  Caused by: ") + layers[i]
    }
}

/// The lines that report an error with its chain of causes, outermost first.
pub open spec fn report_lines(layers: Seq<Seq<u8>>) -> Seq<Seq<u8>> {
    Seq::new(layers.len(), |i: int| report_line(layers, i))
}

/// Writes the lines that report an error with its chain of causes: one line
/// for each layer, outermost first.
pub fn error_report(layers: &Vec<Vec<u8>>) -> (r: Vec<Vec<u8>>)
    ensures
        texts(r@) == report_lines(texts(layers@)),
{
    let mut lines: Vec<Vec<u8>> = Vec::new();
    let mut i: usize = 0;
    while i < layers.len()
        invariant
            i <= layers.len(),
            lines@.len() == i,
            forall|j: int| 0 <= j < i ==> (#[trigger] lines@[j])@ == report_line(texts(layers@), j),
        decreases layers.len() - i,
    {
        let mut line: Vec<u8> = if i == 0 {
            slice_to_vec("Error: ".as_bytes())
        } else {
            slice_to_vec("  Caused by: ".as_bytes())
        };
        append(&mut line, layers[i].as_slice());
        lines.push(line);
        i = i + 1;
    }
    assert(texts(lines@) =~= report_lines(texts(layers@)));
    lines
}

} // verus!
