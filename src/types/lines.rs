//! Strings joined line by line.
use vstd::prelude::*;
use vstd::string::{StrSliceExecFns, StringExecFns};

use crate::error::{Error, ErrorView};
use crate::merge::Merge;

verus! {

/// `a` followed by `b`, with a newline between them unless `a` already ends
/// with one.
pub open spec fn joined_lines(a: Seq<char>, b: Seq<char>) -> Seq<char> {
    if a.len() > 0 && a.last() == '\n' {
        a + b
    } else {
        a + seq!['\n'] + b
    }
}

/// A string that merges by appending the other text on a new line.
#[derive(Debug, Clone, PartialEq, Eq, Hash, Default)]
pub struct Lines {
    content: String,
}

impl View for Lines {
    type V = Seq<char>;

    closed spec fn view(&self) -> Seq<char> {
        self.content@
    }
}

impl Lines {
    /// Lines holding `content`.
    pub fn new(content: &str) -> (r: Lines)
        ensures
            r@ == content@,
    {
        Lines { content: content.to_owned() }
    }

    /// The text.
    pub fn as_str(&self) -> (r: &str)
        ensures
            r@ == self@,
    {
        self.content.as_str()
    }

    /// Takes the text out.
    pub fn into_string(self) -> (r: String)
        ensures
            r@ == self@,
    {
        self.content
    }
}

impl Merge for Lines {
    open spec fn merge_spec(self, other: Self, r: Result<Self, ErrorView>) -> bool {
        r is Ok && r->Ok_0@ == joined_lines(self@, other@)
    }

    fn merge_ref(&mut self, other: Self) -> (r: Result<(), Error>) {
        let n = self.content.as_str().unicode_len();
        let ends_with_newline = n > 0 && self.content.as_str().get_char(n - 1) == '\n';
        if !ends_with_newline {
            self.content.append("\n");
        }
        self.content.append(other.content.as_str());
        proof {
            reveal_strlit("\n");
            assert(joined_lines(old(self)@, other@) =~= self.content@);
        }
        Ok(())
    }
}

} // verus!
