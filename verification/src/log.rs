//! Reading the lines of a trace log: which span a line belongs to, and
//! whether it opens or closes it.

use crate::search::{chars_of, contains_text, find_first, first_occurrence};
use vstd::prelude::*;

verus! {

/// One line of a trace log.
#[derive(Debug)]
pub struct LogEntry {
    /// When the line was written, in RFC 3339 form.
    pub time: String,
    /// The message, which starts with `[` and the name of a span.
    pub msg: String,
}

/// Whether a line opens a span, closes one, or does neither.
#[derive(Clone, Copy, Debug, PartialEq, Eq)]
pub enum Direction {
    Enter,
    Exit,
    Neither,
}

/// The text that marks a line which opens a span: `- START]`.
pub open spec fn start_mark() -> Seq<char> {
    seq!['-', ' ', 'S', 'T', 'A', 'R', 'T', ']']
}

/// The text that marks a line which closes a span: `- END]`.
pub open spec fn end_mark() -> Seq<char> {
    seq!['-', ' ', 'E', 'N', 'D', ']']
}

/// The text that ends the name of the span: a dash between two spaces.
pub open spec fn name_end() -> Seq<char> {
    seq![' ', '-', ' ']
}

/// The direction that a message shows. A start mark outranks an end mark.
pub open spec fn direction_of(msg: Seq<char>) -> Direction {
    if contains_text(msg, start_mark()) {
        Direction::Enter
    } else if contains_text(msg, end_mark()) {
        Direction::Exit
    } else {
        Direction::Neither
    }
}

/// The name of the span in a message: what stands between the first
/// character and the first dash between two spaces, or the end of the
/// message where there is no such dash.
pub open spec fn type_of(msg: Seq<char>) -> Seq<char> {
    let rest = msg.skip(1);
    match first_occurrence(rest, name_end()) {
        Some(i) => rest.take(i),
        None => rest,
    }
}

impl LogEntry {
    /// Whether the line opens a span, closes one, or does neither.
    pub fn direction(&self) -> (direction: Direction)
        ensures
            direction == direction_of(self.msg@),
    {
        let msg = chars_of(self.msg.as_str());
        let start = "- START]";
        let end = "- END]";
        proof {
            reveal_strlit("- START]");
            reveal_strlit("- END]");
            assert(start@ =~= start_mark());
            assert(end@ =~= end_mark());
        }
        if find_first(&msg, &chars_of(start)).is_some() {
            Direction::Enter
        } else if find_first(&msg, &chars_of(end)).is_some() {
            Direction::Exit
        } else {
            Direction::Neither
        }
    }

    /// The name of the span that the line belongs to.
    ///
    /// The message must start with a character of one byte, which is
    /// dropped: the bracket that opens it.
    pub fn log_type(&self) -> (name: String)
        requires
            self.msg@.len() > 0,
            self.msg@[0] as u32 <= 0x7f,
        ensures
            name@ == type_of(self.msg@),
    {
        let text = self.msg.as_str();
        let n = text.unicode_len();
        let rest = text.substring_char(1, n);
        let separator = " - ";
        proof {
            reveal_strlit(" - ");
            assert(separator@ =~= name_end());
            assert(rest@ =~= self.msg@.skip(1));
        }
        match find_first(&chars_of(rest), &chars_of(separator)) {
            Some(i) => {
                let name = rest.substring_char(0, i);
                assert(name@ =~= rest@.take(i as int));
                name.to_owned()
            },
            None => rest.to_owned(),
        }
    }
}

} // verus!
