//! Reading the tag list of a track.
//!
//! A tag list is one string. Tags are separated by spaces; a tag in double
//! quotes may hold spaces; a backslash takes the next character literally.

use vstd::prelude::*;

verus! {

/// Where the reading of a tag list stands after some of its characters.
pub struct TagScan {
    /// The tags that are complete.
    pub tags: Seq<Seq<char>>,
    /// The tag that is being read.
    pub current: Seq<char>,
    /// Whether a double quote is open.
    pub in_quotes: bool,
    /// Whether the last character was a backslash that is still to take
    /// effect.
    pub escape_next: bool,
}

impl TagScan {
    /// Before the first character.
    pub open spec fn start() -> TagScan {
        TagScan { tags: Seq::empty(), current: Seq::empty(), in_quotes: false, escape_next: false }
    }

    /// The tags with the current one added, unless it is empty.
    pub open spec fn flushed(self) -> Seq<Seq<char>> {
        if self.current.len() > 0 {
            self.tags.push(self.current)
        } else {
            self.tags
        }
    }

    /// After one more character.
    ///
    /// After a backslash, a double quote stands for itself, and any other
    /// character for a backslash and itself. Otherwise a backslash is kept
    /// back for the next character, a double quote opens or closes a quoted
    /// part, a space outside quotes ends the current tag, and any other
    /// character belongs to the current tag.
    pub open spec fn step(self, c: char) -> TagScan {
        if self.escape_next {
            if c == '"' {
                TagScan { current: self.current.push('"'), escape_next: false, ..self }
            } else {
                TagScan { current: self.current.push('\\').push(c), escape_next: false, ..self }
            }
        } else if c == '\\' {
            TagScan { escape_next: true, ..self }
        } else if c == '"' {
            TagScan { in_quotes: !self.in_quotes, ..self }
        } else if c == ' ' && !self.in_quotes {
            TagScan { tags: self.flushed(), current: Seq::empty(), ..self }
        } else {
            TagScan { current: self.current.push(c), ..self }
        }
    }

    /// After all of `text`.
    pub open spec fn after(text: Seq<char>) -> TagScan
        decreases text.len(),
    {
        if text.len() == 0 {
            Self::start()
        } else {
            Self::after(text.drop_last()).step(text.last())
        }
    }

    /// Whether no complete tag is empty.
    pub open spec fn no_empty_tag(self) -> bool {
        forall|i: int| 0 <= i < self.tags.len() ==> (#[trigger] self.tags[i]).len() > 0
    }
}

/// The tags of a tag list, in order. A last tag that no space ends counts; a
/// backslash at the very end is dropped.
pub open spec fn tags_of(text: Seq<char>) -> Seq<Seq<char>> {
    TagScan::after(text).flushed()
}

/// No tag of a tag list is empty.
pub proof fn lemma_tags_not_empty(text: Seq<char>)
    ensures
        TagScan::after(text).no_empty_tag(),
        forall|i: int| 0 <= i < tags_of(text).len() ==> (#[trigger] tags_of(text)[i]).len() > 0,
    decreases text.len(),
{
    if text.len() > 0 {
        lemma_tags_not_empty(text.drop_last());
    }
}

/// Splits a tag list into its tags.
pub fn parse_tags(tag_list: &str) -> (tags: Vec<String>)
    ensures
        tags.deep_view() == tags_of(tag_list@),
{
    let mut tags: Vec<String> = Vec::new();
    let mut current = String::new();
    let mut in_quotes = false;
    let mut escape_next = false;
    let ghost text = tag_list@;
    assert(tags.deep_view() =~= Seq::empty());
    for c in it: tag_list.chars()
        invariant
            it.seq() == text,
            TagScan::after(text.take(it.index() as int)).tags == tags.deep_view(),
            TagScan::after(text.take(it.index() as int)).current == current@,
            TagScan::after(text.take(it.index() as int)).in_quotes == in_quotes,
            TagScan::after(text.take(it.index() as int)).escape_next == escape_next,
    {
        let ghost before = tags.deep_view();
        let ghost tag = current@;
        proof {
            let i = it.index() as int;
            assert(text.take(i + 1).drop_last() =~= text.take(i));
            assert(text.take(i + 1).last() == c);
        }
        if escape_next {
            if c == '"' {
                current.push('"');
            } else {
                current.push('\\');
                current.push(c);
            }
            escape_next = false;
        } else if c == '\\' {
            escape_next = true;
        } else if c == '"' {
            in_quotes = !in_quotes;
        } else if c == ' ' && !in_quotes {
            if !current.as_str().is_empty() {
                tags.push(current);
                current = String::new();
                assert(tags.deep_view() =~= before.push(tag));
            }
        } else {
            current.push(c);
        }
    }
    assert(text.take(text.len() as int) =~= text);
    let ghost before = tags.deep_view();
    let ghost tag = current@;
    if !current.as_str().is_empty() {
        tags.push(current);
        assert(tags.deep_view() =~= before.push(tag));
    }
    tags
}

} // verus!
