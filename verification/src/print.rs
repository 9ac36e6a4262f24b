//! The report as it is written: one line after another, each with a mark that
//! tells how it is meant.

use vstd::prelude::*;

verus! {

/// How a line of the report is meant.
#[derive(Clone, Copy, Debug, PartialEq, Eq, Structural)]
pub enum Mark {
    /// All is well.
    Check,
    /// A plain fact.
    Info,
    /// Something to look into.
    Warn,
    /// Something that will not work.
    Error,
    /// A setting.
    Gear,
    /// A directory.
    Dir,
    /// A network.
    Globe,
    /// A line that belongs to the one above it.
    Blank,
}

/// One line of the report.
#[derive(Debug)]
pub struct Line {
    pub mark: Mark,
    pub text: String,
}

/// The report so far.
#[derive(Debug)]
pub struct Print {
    pub lines: Vec<Line>,
}

impl View for Print {
    type V = Seq<(Mark, Seq<char>)>;

    open spec fn view(&self) -> Seq<(Mark, Seq<char>)> {
        self.lines@.map_values(|line: Line| (line.mark, line.text@))
    }
}

/// A report of one line.
pub open spec fn line(mark: Mark, text: Seq<char>) -> Seq<(Mark, Seq<char>)> {
    seq![(mark, text)]
}

impl Print {
    /// An empty report.
    pub fn new() -> (r: Print)
        ensures
            r@ == Seq::<(Mark, Seq<char>)>::empty(),
    {
        let r = Print { lines: Vec::new() };
        assert(r@ =~= Seq::<(Mark, Seq<char>)>::empty());
        r
    }

    /// Adds one line at the end of the report.
    pub fn writeln(&mut self, mark: Mark, text: String)
        ensures
            final(self)@ == old(self)@ + line(mark, text@),
    {
        self.lines.push(Line { mark, text });
        assert(self@ =~= old(self)@ + line(mark, text@));
    }

    pub fn checkln(&mut self, text: String)
        ensures
            final(self)@ == old(self)@ + line(Mark::Check, text@),
    {
        self.writeln(Mark::Check, text);
    }

    pub fn infoln(&mut self, text: String)
        ensures
            final(self)@ == old(self)@ + line(Mark::Info, text@),
    {
        self.writeln(Mark::Info, text);
    }

    pub fn warnln(&mut self, text: String)
        ensures
            final(self)@ == old(self)@ + line(Mark::Warn, text@),
    {
        self.writeln(Mark::Warn, text);
    }

    pub fn errorln(&mut self, text: String)
        ensures
            final(self)@ == old(self)@ + line(Mark::Error, text@),
    {
        self.writeln(Mark::Error, text);
    }

    pub fn gearln(&mut self, text: String)
        ensures
            final(self)@ == old(self)@ + line(Mark::Gear, text@),
    {
        self.writeln(Mark::Gear, text);
    }

    pub fn dirln(&mut self, text: String)
        ensures
            final(self)@ == old(self)@ + line(Mark::Dir, text@),
    {
        self.writeln(Mark::Dir, text);
    }

    pub fn globeln(&mut self, text: String)
        ensures
            final(self)@ == old(self)@ + line(Mark::Globe, text@),
    {
        self.writeln(Mark::Globe, text);
    }

    pub fn blankln(&mut self, text: String)
        ensures
            final(self)@ == old(self)@ + line(Mark::Blank, text@),
    {
        self.writeln(Mark::Blank, text);
    }
}

// ---------------------------------------------------------------------------
// Laws
// ---------------------------------------------------------------------------

/// A report is read from its first line to its last, each line with its own mark and
/// text.
pub proof fn law_a_report_is_its_lines_in_order(report: Print)
    ensures
        report@.len() == report.lines@.len(),
        forall|i: int|
            0 <= i < report.lines@.len() ==> (#[trigger] report@[i]).0 == report.lines@[i].mark
                && report@[i].1 == report.lines@[i].text@,
{
}

} // verus!
