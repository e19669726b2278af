//! The message that tells the organisation's chat of projects with issues.

use vstd::prelude::*;

verus! {

/// One block of a message.
#[derive(Debug)]
pub enum Block {
    /// A line that parts what is above from what is below.
    Divider,
    /// A section of text in the chat's markdown.
    Text(String),
}

/// What a block says.
pub ghost enum BlockView {
    Divider,
    Text(Seq<char>),
}

impl View for Block {
    type V = BlockView;

    open spec fn view(&self) -> BlockView {
        match self {
            Block::Divider => BlockView::Divider,
            Block::Text(text) => BlockView::Text(text@),
        }
    }
}

} // verus!
