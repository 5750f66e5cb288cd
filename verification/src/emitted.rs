//! What a streamed response hands on as it arrives.

use vstd::prelude::*;

verus! {

/// What a stream hands on as it goes.
#[derive(Debug, PartialEq)]
pub enum Emitted {
    Content(String),
    Thinking(String),
}

/// The model of what a stream hands on.
pub ghost enum EmittedView {
    Content(Seq<char>),
    Thinking(Seq<char>),
}

impl View for Emitted {
    type V = EmittedView;

    open spec fn view(&self) -> EmittedView {
        match self {
            Emitted::Content(t) => EmittedView::Content(t@),
            Emitted::Thinking(t) => EmittedView::Thinking(t@),
        }
    }
}

/// The models of what a stream hands on.
pub open spec fn emitted_views(s: Seq<Emitted>) -> Seq<EmittedView> {
    s.map_values(|e: Emitted| e@)
}

} // verus!
