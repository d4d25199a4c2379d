use vstd::prelude::*;
use pulldown_cmark::html::push_html;
use pulldown_cmark::{CodeBlockKind, Event, Options, Parser, Tag};
use crate::events::{events_view, EvModel, MdEvent};

verus! {

#[verifier::external_type_specification]
#[verifier::external_body]
pub struct ExEvent<'a>(Event<'a>);

/// The event sequence that the external markdown parser produces for a
/// given source text when tables, footnotes, strikethrough and task
/// lists are enabled, as this library models events. The parse depends
/// on the source text alone.
pub uninterp spec fn parsed_events(s: Seq<char>) -> Seq<EvModel>;

/// The HTML fragment that the external serializer produces for a given
/// event sequence. The output depends on the events alone.
pub uninterp spec fn html_output(events: Seq<EvModel>) -> Seq<char>;

/// Relies on pulldown_cmark::Parser::new_ext and the events it yields:
/// parses markdown into an event sequence, with tables, footnotes,
/// strikethrough and task lists enabled. A fenced code block start is
/// taken apart into its info string; every other event is kept whole.
#[verifier::external_body]
pub(crate) fn parse_markdown(input: &str) -> (r: Vec<MdEvent>)
    ensures
        events_view(r@) == parsed_events(input@),
{
    let options = Options::ENABLE_TABLES | Options::ENABLE_FOOTNOTES
        | Options::ENABLE_STRIKETHROUGH | Options::ENABLE_TASKLISTS;
    Parser::new_ext(input, options).map(|ev| match ev {
        Event::Start(Tag::CodeBlock(CodeBlockKind::Fenced(lang))) => {
            MdEvent::FencedCodeStart(lang.into_string())
        },
        other => MdEvent::Raw(other.into_static()),
    }).collect()
}

/// Relies on pulldown_cmark::html::push_html: serializes an event
/// sequence into an HTML fragment, here appended to an empty string.
#[verifier::external_body]
pub(crate) fn render_html(events: Vec<MdEvent>) -> (r: String)
    ensures
        r@ == html_output(events_view(events@)),
{
    let mut out = String::new();
    push_html(&mut out, events.into_iter().map(|ev| match ev {
        MdEvent::FencedCodeStart(lang) => {
            Event::Start(Tag::CodeBlock(CodeBlockKind::Fenced(lang.into())))
        },
        MdEvent::Html(markup) => Event::Html(markup.into()),
        MdEvent::Raw(ev) => ev,
    }));
    out
}

/// Relies on String::push_str: appends the slice's characters to the
/// end of the string.
#[verifier::external_body]
pub(crate) fn append_str(s: &mut String, t: &str)
    ensures
        final(s)@ == old(s)@ + t@,
{
    s.push_str(t);
}

} // verus!
