use super::styles::Style;
use super::util::Xy;
use vstd::prelude::*;

verus! {

/// One drawing operation on the terminal.
#[derive(Clone, Copy, Debug, PartialEq, Eq)]
pub enum Command {
    /// Blank the whole screen.
    Clear,
    /// Put the cursor at a cell.
    MoveTo(Xy),
    /// Print a string at the cursor.
    Write(&'static str),
    /// Draw what follows in a style.
    SetStyle(Style),
    /// Draw what follows in the terminal's own colours.
    ResetStyle,
    /// Send everything drawn so far to the terminal.
    Flush,
}

/// The drawing operations queued for the terminal, in order.
pub struct Canvas {
    commands: Vec<Command>,
}

/// `count` copies of `Write(string)`.
pub open spec fn repeat_write(string: &'static str, count: nat) -> Seq<Command>
    decreases count,
{
    if count == 0 {
        Seq::empty()
    } else {
        repeat_write(string, (count - 1) as nat).push(Command::Write(string))
    }
}

/// `count` writes of `string` are `count` commands, each of them that write.
pub proof fn lemma_repeat_write(string: &'static str, count: nat)
    ensures
        repeat_write(string, count).len() == count,
        forall|i: int| 0 <= i < count ==> #[trigger] repeat_write(string, count)[i] == Command::Write(string),
    decreases count,
{
    if count > 0 {
        lemma_repeat_write(string, (count - 1) as nat);
    }
}

impl Canvas {
    /// The operations queued so far.
    pub closed spec fn queued(&self) -> Seq<Command> {
        self.commands@
    }

    /// A canvas with nothing queued.
    pub fn new() -> (r: Canvas)
        ensures
            r.queued() == Seq::<Command>::empty(),
    {
        Canvas { commands: Vec::new() }
    }

    /// The operations queued so far, to be carried out on the terminal.
    pub fn into_inner(self) -> (r: Vec<Command>)
        ensures
            r@ == self.queued(),
    {
        self.commands
    }

    /// Queues sending everything drawn so far.
    pub fn flush(&mut self)
        ensures
            final(self).queued() == old(self).queued().push(Command::Flush),
    {
        self.commands.push(Command::Flush);
    }

    /// Queues printing `string`.
    pub fn write(&mut self, string: &'static str)
        ensures
            final(self).queued() == old(self).queued().push(Command::Write(string)),
    {
        self.commands.push(Command::Write(string));
    }

    /// Queues printing `string` `count` times.
    pub fn write_repeat(&mut self, string: &'static str, count: usize)
        ensures
            final(self).queued() == old(self).queued() + repeat_write(string, count as nat),
    {
        let mut i: usize = 0;
        while i < count
            invariant
                i <= count,
                self.queued() == old(self).queued() + repeat_write(string, i as nat),
            decreases count - i,
        {
            self.write(string);
            i = i + 1;
            assert(self.queued() =~= old(self).queued() + repeat_write(string, i as nat));
        }
    }

    /// Queues blanking the screen.
    pub fn clear(&mut self)
        ensures
            final(self).queued() == old(self).queued().push(Command::Clear),
    {
        self.commands.push(Command::Clear);
    }

    /// Queues moving the cursor to `coords`.
    pub fn move_to(&mut self, coords: Xy)
        ensures
            final(self).queued() == old(self).queued().push(Command::MoveTo(coords)),
    {
        self.commands.push(Command::MoveTo(coords));
    }

    /// Queues drawing what follows in `style`.
    pub fn set_style(&mut self, style: Style)
        ensures
            final(self).queued() == old(self).queued().push(Command::SetStyle(style)),
    {
        self.commands.push(Command::SetStyle(style));
    }

    /// Queues going back to the terminal's own colours.
    pub fn reset_style(&mut self)
        ensures
            final(self).queued() == old(self).queued().push(Command::ResetStyle),
    {
        self.commands.push(Command::ResetStyle);
    }
}

} // verus!
