use vstd::prelude::*;
use crate::events::{events_view, EvModel, MdEvent};
use crate::pipeline::append_str;

verus! {

/// The markup that replaces the start of a fenced code block whose info
/// string is `lang`: an opening tag carrying a language class, the
/// class a downstream syntax highlighter keys on. `lang` stands in the
/// markup verbatim, unescaped.
pub open spec fn code_block_markup(lang: Seq<char>) -> Seq<char> {
    "<pre><code class=\"language-"@ + lang + "\">\n"@
}

/// How one event is rewritten: the start of a fenced code block with a
/// non-empty language tag becomes raw markup carrying the language
/// class; every other event -- a fenced block with no language tag, the
/// block's contents and its end marker among them -- is untouched.
pub open spec fn rewrite_model(e: EvModel) -> EvModel {
    match e {
        EvModel::Fenced(lang) => if lang.len() > 0 {
            EvModel::Html(code_block_markup(lang))
        } else {
            EvModel::Fenced(lang)
        },
        _ => e,
    }
}

/// The rewrite of a whole event sequence: elementwise, order and length
/// kept.
pub open spec fn rewrite_all(s: Seq<EvModel>) -> Seq<EvModel> {
    s.map_values(|e: EvModel| rewrite_model(e))
}

/// The rewriter keeps length and order, turns each event into exactly
/// what `rewrite_model` says, and leaves every event that is not the
/// start of a fenced code block unchanged.
pub proof fn lemma_rewrite_shape(evs: Seq<EvModel>)
    ensures
        rewrite_all(evs).len() == evs.len(),
        forall|i: int| 0 <= i < evs.len() ==> #[trigger] rewrite_all(evs)[i] == rewrite_model(evs[i]),
        forall|i: int| 0 <= i < evs.len() && !(evs[i] is Fenced) ==> rewrite_all(evs)[i] == evs[i],
{
}

/// Builds the opening markup for a fenced code block tagged `lang`.
fn build_markup(lang: &String) -> (r: String)
    ensures
        r@ == code_block_markup(lang@),
{
    let mut s: String = "<pre><code class=\"language-".to_owned();
    append_str(&mut s, lang.as_str());
    append_str(&mut s, "\">\n");
    proof {
        assert(s@ =~= code_block_markup(lang@));
    }
    s
}

/// Rewrites one event, exactly as `rewrite_model` says.
fn rewrite_one(ev: MdEvent) -> (r: MdEvent)
    ensures
        r@ == rewrite_model(ev@),
{
    match ev {
        MdEvent::FencedCodeStart(lang) => {
            if lang.as_str().is_empty() {
                MdEvent::FencedCodeStart(lang)
            } else {
                let markup = build_markup(&lang);
                MdEvent::Html(markup)
            }
        },
        other => other,
    }
}

/// Walks the event sequence once and rewrites it in place: each fenced
/// code block start that carries a language tag becomes raw markup with
/// the language class; everything else is left exactly as parsed.
pub fn rewrite_events(events: &mut Vec<MdEvent>)
    ensures
        events_view(final(events)@) == rewrite_all(events_view(old(events)@)),
{
    let ghost orig = events@;
    let mut i: usize = 0;
    while i < events.len()
        invariant
            events@.len() == orig.len(),
            0 <= i <= orig.len(),
            forall|j: int| 0 <= j < i ==> #[trigger] events@[j]@ == rewrite_model(orig[j]@),
            forall|j: int| i <= j < orig.len() ==> #[trigger] events@[j] == orig[j],
        decreases orig.len() - i,
    {
        let ev = events.remove(i);
        let ev2 = rewrite_one(ev);
        events.insert(i, ev2);
        i = i + 1;
    }
    proof {
        assert(events_view(events@) =~= rewrite_all(events_view(orig)));
    }
}

} // verus!
