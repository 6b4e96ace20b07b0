//! The static/dynamic output splitter: committed lines are written once
//! above the dynamic region, which is erased and repainted every pass.
use vstd::prelude::*;

verus! {

/// A command to the terminal driver.
#[derive(Debug)]
pub enum TermCommand {
    /// Moves the cursor up this many lines.
    MoveCursorUp(usize),
    /// Clears this many lines from the cursor down.
    ClearLines(usize),
    /// Writes one line and moves to the next.
    WriteLine(String),
}

/// A `WriteLine` for each line, in order.
pub open spec fn write_lines(lines: Seq<String>) -> Seq<TermCommand> {
    lines.map_values(|s: String| TermCommand::WriteLine(s))
}

/// The commands of one paint: erase the `height` lines of the previous
/// dynamic frame, if any, write the newly committed lines, then the new frame.
pub open spec fn repaint(height: nat, committed: Seq<String>, frame: Seq<String>) -> Seq<TermCommand> {
    let erase = if height > 0 {
        seq![TermCommand::MoveCursorUp(height as usize), TermCommand::ClearLines(height as usize)]
    } else {
        Seq::empty()
    };
    erase + write_lines(committed) + write_lines(frame)
}

/// The terminal's two regions: the append-only static log, and the height of
/// the dynamic frame painted below it.
pub struct Splitter {
    static_lines: Vec<String>,
    dynamic_height: usize,
}

impl Splitter {
    /// Every line committed to the static region, in order.
    pub closed spec fn committed(&self) -> Seq<String> {
        self.static_lines@
    }

    /// How many lines the last dynamic frame took.
    pub closed spec fn height(&self) -> nat {
        self.dynamic_height as nat
    }

    /// An empty terminal.
    pub fn new() -> (r: Splitter)
        ensures
            r.committed() == Seq::<String>::empty(),
            r.height() == 0,
    {
        Splitter { static_lines: Vec::new(), dynamic_height: 0 }
    }

    /// The number of lines of the dynamic frame on screen.
    pub fn dynamic_height(&self) -> (r: usize)
        ensures
            r == self.height(),
    {
        self.dynamic_height
    }

    /// Paints one pass: commits `new_static` for good above the dynamic
    /// region and replaces the dynamic frame by `frame`. Returns the commands
    /// for the terminal driver. Committed lines are never rewritten.
    pub fn paint(&mut self, new_static: &Vec<String>, frame: &Vec<String>) -> (r: Vec<TermCommand>)
        ensures
            r@ == repaint(old(self).height(), new_static@, frame@),
            final(self).committed() == old(self).committed() + new_static@,
            final(self).height() == frame@.len(),
    {
        let mut out: Vec<TermCommand> = Vec::new();
        if self.dynamic_height > 0 {
            out.push(TermCommand::MoveCursorUp(self.dynamic_height));
            out.push(TermCommand::ClearLines(self.dynamic_height));
        }
        let ghost erase = out@;
        let mut i: usize = 0;
        while i < new_static.len()
            invariant
                i <= new_static.len(),
                out@ == erase + write_lines(new_static@.subrange(0, i as int)),
                self.static_lines@ == old(self).static_lines@ + new_static@.subrange(0, i as int),
                self.dynamic_height == old(self).dynamic_height,
            decreases new_static.len() - i,
        {
            out.push(TermCommand::WriteLine(new_static[i].clone()));
            self.static_lines.push(new_static[i].clone());
            proof {
                assert(write_lines(new_static@.subrange(0, i + 1)) =~= write_lines(
                    new_static@.subrange(0, i as int),
                ).push(TermCommand::WriteLine(new_static@[i as int])));
                assert(new_static@.subrange(0, i + 1) =~= new_static@.subrange(0, i as int).push(
                    new_static@[i as int],
                ));
            }
            i = i + 1;
        }
        let ghost head = out@;
        let mut j: usize = 0;
        while j < frame.len()
            invariant
                j <= frame.len(),
                out@ == head + write_lines(frame@.subrange(0, j as int)),
            decreases frame.len() - j,
        {
            out.push(TermCommand::WriteLine(frame[j].clone()));
            proof {
                assert(write_lines(frame@.subrange(0, j + 1)) =~= write_lines(
                    frame@.subrange(0, j as int),
                ).push(TermCommand::WriteLine(frame@[j as int])));
            }
            j = j + 1;
        }
        proof {
            assert(new_static@.subrange(0, new_static@.len() as int) =~= new_static@);
            assert(frame@.subrange(0, frame@.len() as int) =~= frame@);
            if old(self).dynamic_height > 0 {
                assert(erase =~= seq![
                    TermCommand::MoveCursorUp(old(self).dynamic_height),
                    TermCommand::ClearLines(old(self).dynamic_height),
                ]);
            } else {
                assert(erase =~= Seq::<TermCommand>::empty());
            }
        }
        self.dynamic_height = frame.len();
        out
    }
}

} // verus!
