use vstd::prelude::*;
use pulldown_cmark::Event;

verus! {

/// One markdown event, as this library sees it: the start of a fenced
/// code block is taken apart (it carries the fence's info string), raw
/// HTML injected by the rewriter is carried as text, and every other
/// event of the external parser passes through whole and untouched.
pub enum MdEvent {
    /// Start of a fenced code block; the string is the fence's info
    /// string (the language tag), possibly empty.
    FencedCodeStart(String),
    /// A raw HTML event holding the given markup.
    Html(String),
    /// Any other event of the external parser, carried through opaquely.
    Raw(Event<'static>),
}

/// The mathematical model of one event: info strings and markup are
/// character sequences; an event this library never inspects is
/// modelled by itself.
pub enum EvModel {
    Fenced(Seq<char>),
    Html(Seq<char>),
    Raw(Event<'static>),
}

impl View for MdEvent {
    type V = EvModel;

    open spec fn view(&self) -> EvModel {
        match self {
            MdEvent::FencedCodeStart(lang) => EvModel::Fenced(lang@),
            MdEvent::Html(markup) => EvModel::Html(markup@),
            MdEvent::Raw(ev) => EvModel::Raw(*ev),
        }
    }
}

/// The model of a whole event sequence.
pub open spec fn events_view(s: Seq<MdEvent>) -> Seq<EvModel> {
    s.map_values(|e: MdEvent| e@)
}

} // verus!
