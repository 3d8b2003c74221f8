//! A writer of indented lines.

use vstd::prelude::*;
use vstd::string::StringExecFns;

verus! {

/// `n` blanks.
pub open spec fn blanks(n: nat) -> Seq<char> {
    Seq::new(n, |i: int| ' ')
}

/// The blanks in front of a line at a level of indentation: `size` blanks
/// for each level.
pub open spec fn indentation(level: nat, size: nat) -> Seq<char>
    decreases level,
{
    if level == 0 {
        Seq::empty()
    } else {
        indentation((level - 1) as nat, size) + blanks(size)
    }
}

/// The state of a [`Formatter`]: the text written so far, the number of
/// blanks per level of indentation, and the level at which it stands.
pub struct FormatterView {
    pub text: Seq<char>,
    pub indent_size: nat,
    pub indent_level: nat,
}

impl FormatterView {
    /// A line at the current level of indentation.
    pub open spec fn line(self, content: Seq<char>) -> FormatterView {
        FormatterView {
            text: self.text + indentation(self.indent_level, self.indent_size) + content + seq!['\n'],
            ..self
        }
    }

    /// A line that holds nothing, not even indentation.
    pub open spec fn empty_line(self) -> FormatterView {
        FormatterView { text: self.text + seq!['\n'], ..self }
    }

    /// The heading of a block with its opening brace; what follows is one
    /// level deeper.
    pub open spec fn open_block(self, heading: Seq<char>) -> FormatterView {
        FormatterView { indent_level: self.indent_level + 1, ..self.line(heading + seq![' ', '{']) }
    }

    /// The closing brace of a block, one level up, with a semicolon behind
    /// it where the language asks for one.
    pub open spec fn close_block(self, semicolon: bool) -> FormatterView {
        let outer = FormatterView { indent_level: (self.indent_level - 1) as nat, ..self };
        outer.line(
            if semicolon {
                seq!['}', ';']
            } else {
                seq!['}']
            },
        )
    }
}

/// Writes lines into a string, each behind the indentation of the block
/// that it stands in.
pub struct Formatter {
    out: String,
    indent_size: usize,
    indent_level: usize,
}

impl View for Formatter {
    type V = FormatterView;

    closed spec fn view(&self) -> FormatterView {
        FormatterView {
            text: self.out@,
            indent_size: self.indent_size as nat,
            indent_level: self.indent_level as nat,
        }
    }
}

impl Formatter {
    /// A formatter that has written nothing and stands at level 0.
    pub fn new(indent_size: usize) -> (r: Formatter)
        ensures
            r@ == (FormatterView {
                text: Seq::empty(),
                indent_size: indent_size as nat,
                indent_level: 0,
            }),
    {
        Formatter { out: String::new(), indent_size, indent_level: 0 }
    }

    pub fn indent_level(&self) -> (r: usize)
        ensures
            r == self@.indent_level,
    {
        self.indent_level
    }

    fn push_indentation(&mut self)
        ensures
            final(self)@ == (FormatterView {
                text: old(self)@.text + indentation(old(self)@.indent_level, old(self)@.indent_size),
                ..old(self)@
            }),
    {
        let mut level: usize = 0;
        while level < self.indent_level
            invariant
                level <= self.indent_level,
                self.indent_level == old(self).indent_level,
                self.indent_size == old(self).indent_size,
                self.out@ == old(self).out@ + indentation(level as nat, self.indent_size as nat),
            decreases self.indent_level - level,
        {
            let ghost start = self.out@;
            let mut i: usize = 0;
            while i < self.indent_size
                invariant
                    i <= self.indent_size,
                    self.indent_level == old(self).indent_level,
                    self.indent_size == old(self).indent_size,
                    self.out@ == start + blanks(i as nat),
                decreases self.indent_size - i,
            {
                proof {
                    reveal_strlit(" ");
                }
                self.out.append(" ");
                assert(self.out@ =~= start + blanks((i + 1) as nat));
                i += 1;
            }
            assert(self.out@ =~= old(self).out@ + indentation(
                (level + 1) as nat,
                self.indent_size as nat,
            ));
            level += 1;
        }
    }

    /// Writes `content` as a line at the current level of indentation.
    pub fn line(&mut self, content: &str)
        ensures
            final(self)@ == old(self)@.line(content@),
    {
        self.push_indentation();
        self.out.append(content);
        proof {
            reveal_strlit("\n");
        }
        self.out.append("\n");
        assert(self@.text =~= old(self)@.line(content@).text);
    }

    /// Writes `text` as it stands, with no indentation and no line end.
    pub fn write_str(&mut self, text: &str)
        ensures
            final(self)@ == (FormatterView { text: old(self)@.text + text@, ..old(self)@ }),
    {
        self.out.append(text);
    }

    /// Writes a line that holds nothing.
    pub fn empty_line(&mut self)
        ensures
            final(self)@ == old(self)@.empty_line(),
    {
        proof {
            reveal_strlit("\n");
        }
        self.out.append("\n");
        assert(self@.text =~= old(self)@.empty_line().text);
    }

    /// Opens a block: writes its heading with the opening brace, and goes
    /// one level deeper.
    pub fn open_block(&mut self, heading: &str)
        requires
            old(self)@.indent_level < usize::MAX,
        ensures
            final(self)@ == old(self)@.open_block(heading@),
    {
        let mut first = heading.to_owned();
        proof {
            reveal_strlit(" {");
        }
        first.append(" {");
        assert(first@ =~= heading@ + seq![' ', '{']);
        self.line(first.as_str());
        self.indent_level = self.indent_level + 1;
    }

    /// Closes the block that the formatter stands in: goes one level up and
    /// writes the closing brace.
    pub fn close_block(&mut self, semicolon: bool)
        requires
            old(self)@.indent_level > 0,
        ensures
            final(self)@ == old(self)@.close_block(semicolon),
    {
        self.indent_level = self.indent_level - 1;
        proof {
            reveal_strlit("};");
            reveal_strlit("}");
        }
        if semicolon {
            assert("};"@ =~= seq!['}', ';']);
            self.line("};");
        } else {
            assert("}"@ =~= seq!['}']);
            self.line("}");
        }
    }

    /// The text written so far.
    pub fn as_str(&self) -> (r: &str)
        ensures
            r@ == self@.text,
    {
        self.out.as_str()
    }

    /// Hands out the text written.
    pub fn into_string(self) -> (r: String)
        ensures
            r@ == self@.text,
    {
        self.out
    }
}

} // verus!
