//! What the lexers of all RDF serialisations share.

use vstd::prelude::*;
use crate::reader::input_reader::{InputReader, drop_char};

verus! {

/// Lexing steps that do not depend on the serialisation.
pub trait TokensFromRdf {
    /// Consumes exactly one character; at the end of the input nothing
    /// changes.
    fn consume_next_char(input_reader: &mut InputReader)
        ensures
            final(input_reader)@ == drop_char(old(input_reader)@),
    {
        let _ = input_reader.get_next_char();
    }
}

} // verus!
