//! Caption copy gated by an editorial state machine.
//!
//! A [`Post`] collects the text a scene wants to put on screen.  Content
//! moves through `Draft` to `PendingReview` to `Published`, and only
//! published content is ever handed out to the rendering host; while
//! unpublished, the post reads as empty.

use vstd::prelude::*;
use vstd::string::StringExecFns;

verus! {

/// Editorial stage of a piece of caption copy.
#[derive(Debug, Clone, Copy, PartialEq, Eq, Structural)]
pub enum State {
    Draft,
    PendingReview,
    Published,
}

/// A piece of caption copy together with its editorial stage.
#[derive(Debug)]
pub struct Post {
    pub state: State,
    pub content: String,
}

impl Post {
    /// An empty draft.
    pub fn new() -> (r: Post)
        ensures
            r.state == State::Draft,
            r.content@ == Seq::<char>::empty(),
    {
        Post { state: State::Draft, content: String::new() }
    }

    /// Append text to the copy; the editorial stage is unchanged.
    pub fn add_text(&mut self, text: &str)
        ensures
            final(self).state == old(self).state,
            final(self).content@ == old(self).content@ + text@,
    {
        self.content.append(text);
    }

    /// Submit a draft for review; any other stage is unchanged.
    pub fn request_review(&mut self)
        ensures
            final(self).content == old(self).content,
            final(self).state == if old(self).state is Draft {
                State::PendingReview
            } else {
                old(self).state
            },
    {
        if let State::Draft = self.state {
            self.state = State::PendingReview;
        }
    }

    /// Approve a post under review; any other stage is unchanged.
    pub fn approve(&mut self)
        ensures
            final(self).content == old(self).content,
            final(self).state == if old(self).state is PendingReview {
                State::Published
            } else {
                old(self).state
            },
    {
        if let State::PendingReview = self.state {
            self.state = State::Published;
        }
    }

    /// The copy to show: the content once published, empty before that.
    pub fn content(&self) -> (r: &str)
        ensures
            self.state is Published ==> r@ == self.content@,
            !(self.state is Published) ==> r@ == Seq::<char>::empty(),
    {
        proof {
            reveal_strlit("");
        }
        if let State::Published = self.state {
            self.content.as_str()
        } else {
            ""
        }
    }
}

} // verus!
