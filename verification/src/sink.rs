//! The statement sink: an ordered buffer of statement and comment lines.

use vstd::prelude::*;

verus! {

/// The output abstraction the serializers write through. It collects the
/// statement and comment lines in the exact order they were generated; the
/// caller afterwards sends the collected lines to a named file or to a
/// console stream, without the serializers knowing which.
pub struct StatementSink {
    pub lines: Vec<String>,
}

impl View for StatementSink {
    type V = Seq<Seq<char>>;

    open spec fn view(&self) -> Seq<Seq<char>> {
        self.lines.deep_view()
    }
}

impl StatementSink {
    /// An empty sink.
    pub fn new() -> (s: Self)
        ensures
            s@ == Seq::<Seq<char>>::empty(),
    {
        let s = StatementSink { lines: Vec::new() };
        proof {
            assert(s@ =~= Seq::<Seq<char>>::empty());
        }
        s
    }

    /// Appends one line to the buffer.
    pub fn write_line(&mut self, line: String)
        ensures
            final(self)@ == old(self)@.push(line@),
    {
        let ghost before = self.lines.deep_view();
        let ghost l = line@;
        self.lines.push(line);
        proof {
            assert(self.lines.deep_view() =~= before.push(l));
        }
    }

    /// Appends one line given as a string slice.
    pub fn write_str(&mut self, line: &str)
        ensures
            final(self)@ == old(self)@.push(line@),
    {
        self.write_line(line.to_owned());
    }

    /// The number of lines collected so far.
    pub fn line_count(&self) -> (n: usize)
        ensures
            n == self@.len(),
    {
        self.lines.len()
    }
}

} // verus!
