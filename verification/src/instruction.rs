//! The six requests that the processor accepts.

use vstd::prelude::*;

use crate::identity::Identity;

verus! {

/// A request to the processor.
#[derive(Clone, Debug, PartialEq, Eq)]
pub enum SocialInstruction {
    /// Create the record of the named namespace, "profile" or "post", for
    /// the owning identity.
    Init { seed_type: String },
    /// Add an identity to the follow list.
    Follow(Identity),
    /// Remove an identity from the follow list.
    Unfollow(Identity),
    /// Read the follow list.
    QueryFollows,
    /// Store a post with the given text.
    Post(String),
    /// Read the post counter and a post.
    QueryPosts,
}

/// What a request is to the rules.
pub ghost enum InstructionView {
    Init { seed_type: Seq<char> },
    Follow(Seq<u8>),
    Unfollow(Seq<u8>),
    QueryFollows,
    Post(Seq<char>),
    QueryPosts,
}

impl View for SocialInstruction {
    type V = InstructionView;

    open spec fn view(&self) -> InstructionView {
        match *self {
            SocialInstruction::Init { seed_type } => InstructionView::Init { seed_type: seed_type@ },
            SocialInstruction::Follow(identity) => InstructionView::Follow(identity@),
            SocialInstruction::Unfollow(identity) => InstructionView::Unfollow(identity@),
            SocialInstruction::QueryFollows => InstructionView::QueryFollows,
            SocialInstruction::Post(content) => InstructionView::Post(content@),
            SocialInstruction::QueryPosts => InstructionView::QueryPosts,
        }
    }
}

} // verus!
