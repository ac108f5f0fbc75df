//! Code in a markup tree, written as markdown: a block of code is fenced on lines
//! of its own, code within a line is set between backticks.
use crate::text::same_text;
use vstd::prelude::*;

verus! {

/// What is written while a markup tree is walked.
pub struct StructuredPrinter {
    /// The names of the elements that enclose the one at hand, the outermost first.
    pub parent_chain: Vec<String>,
    /// The markdown written so far.
    pub data: String,
}

impl StructuredPrinter {
    /// Writes a newline.
    pub fn insert_newline(&mut self)
        ensures
            final(self).data@ == old(self).data@ + NEWLINE@,
            final(self).parent_chain == old(self).parent_chain,
    {
        self.append_str(NEWLINE);
    }

    /// Writes `it` after what is written.
    pub fn append_str(&mut self, it: &str)
        ensures
            final(self).data@ == old(self).data@ + it@,
            final(self).parent_chain == old(self).parent_chain,
    {
        self.data.append(it);
    }
}

/// A node of a markup tree, as far as the code handler looks at it.
pub enum Node {
    /// An element, with its name.
    Element { name: String },
    /// A node that is no element: text, a comment, the document.
    Other,
}

pub const PRE: &'static str = "pre";

pub const CODE: &'static str = "code";

pub const SAMP: &'static str = "samp";

pub const NEWLINE: &'static str = "\n";

/// The line that opens and closes a block of code.
pub const FENCE: &'static str = "\n```\n";

/// The sign that opens and closes code within a line.
pub const TICK: &'static str = "`";

/// What is written where an element named `code_type` begins (`start`) or ends,
/// inside an element named `parent`. A `pre` gets a fence, with a newline before
/// it where the element begins and after it where the element ends; a `code` or a
/// `samp` gets a backtick, but a `code` right inside a `pre` gets nothing; so does
/// every other element.
pub open spec fn fence_of(code_type: Seq<char>, parent: Seq<char>, start: bool) -> Seq<char> {
    if code_type == CODE@ && parent == PRE@ {
        Seq::empty()
    } else if code_type == PRE@ {
        if start {
            NEWLINE@ + FENCE@
        } else {
            FENCE@ + NEWLINE@
        }
    } else if code_type == CODE@ || code_type == SAMP@ {
        TICK@
    } else {
        Seq::empty()
    }
}

/// The handler of the elements `pre`, `code` and `samp`.
pub struct CodeHandler {
    code_type: String,
}

impl Default for CodeHandler {
    /// A handler that has met no element yet.
    fn default() -> (handler: Self)
        ensures
            handler.element().len() == 0,
    {
        CodeHandler { code_type: String::new() }
    }
}

impl CodeHandler {
    /// The name of the element that the handler met last; empty where it met none
    /// or a node that is no element.
    pub closed spec fn element(&self) -> Seq<char> {
        self.code_type@
    }

    /// Writes what belongs where the element at hand begins (`start`) or ends.
    /// The element has a parent.
    pub fn do_handle(&mut self, printer: &mut StructuredPrinter, start: bool)
        requires
            old(printer).parent_chain.len() > 0,
        ensures
            final(self).element() == old(self).element(),
            final(printer).parent_chain == old(printer).parent_chain,
            final(printer).data@ == old(printer).data@ + fence_of(
                old(self).element(),
                old(printer).parent_chain@.last()@,
                start,
            ),
    {
        let ghost before = printer.data@;
        let last = printer.parent_chain.len() - 1;
        let parent_is_pre = same_text(printer.parent_chain[last].as_str(), PRE);
        let is_code = same_text(self.code_type.as_str(), CODE);
        if is_code && parent_is_pre {
            assert(before + Seq::<char>::empty() == before);
            return ;
        }
        if same_text(self.code_type.as_str(), PRE) {
            if start {
                printer.insert_newline();
            }
            printer.append_str(FENCE);
            if !start {
                printer.insert_newline();
            }
            assert(before + NEWLINE@ + FENCE@ == before + (NEWLINE@ + FENCE@));
            assert(before + FENCE@ + NEWLINE@ == before + (FENCE@ + NEWLINE@));
        } else if is_code || same_text(self.code_type.as_str(), SAMP) {
            printer.append_str(TICK);
        } else {
            assert(before + Seq::<char>::empty() == before);
        }
    }

    /// Takes the name of the node at hand, if it is an element, and writes what
    /// belongs where it begins.
    pub fn handle(&mut self, tag: &Node, printer: &mut StructuredPrinter)
        requires
            old(printer).parent_chain.len() > 0,
        ensures
            final(self).element() == (match *tag {
                Node::Element { name } => name@,
                Node::Other => Seq::empty(),
            }),
            final(printer).parent_chain == old(printer).parent_chain,
            final(printer).data@ == old(printer).data@ + fence_of(
                final(self).element(),
                old(printer).parent_chain@.last()@,
                true,
            ),
    {
        self.code_type = match tag {
            Node::Element { name } => name.clone(),
            Node::Other => String::new(),
        };
        self.do_handle(printer, true);
    }

    /// Writes what belongs where the element met last ends.
    pub fn after_handle(&mut self, printer: &mut StructuredPrinter)
        requires
            old(printer).parent_chain.len() > 0,
        ensures
            final(self).element() == old(self).element(),
            final(printer).parent_chain == old(printer).parent_chain,
            final(printer).data@ == old(printer).data@ + fence_of(
                old(self).element(),
                old(printer).parent_chain@.last()@,
                false,
            ),
    {
        self.do_handle(printer, false);
    }
}

} // verus!
