//! The document event stream and the metadata block locator.
//!
//! A document is lexed into a sequence of structural events; the locator
//! skips the events opening a metadata block and takes the raw text
//! contained in it, if the document begins with such a block.

use vstd::prelude::*;

use pulldown_cmark::CowStr;
use pulldown_cmark::Event;
use pulldown_cmark::Options;
use pulldown_cmark::Parser;
use pulldown_cmark::Tag;
use pulldown_cmark::TextMergeStream;

verus! {

/// Spec-level model of a [`StructuralEvent`].
pub enum EventModel {
    MetadataStart,
    Text(Seq<char>),
    Other,
}

/// One structural event of the document lexer: the start of a metadata
/// block, a single contiguous text run, or anything else.
pub enum StructuralEvent {
    /// The start of a metadata block, of either recognized fencing style.
    MetadataStart,
    /// A single contiguous text run, borrowed whole from the document.
    Text(String),
    /// Any other structural event.
    Other,
}

impl DeepView for StructuralEvent {
    type V = EventModel;

    open spec fn deep_view(&self) -> EventModel {
        match self {
            StructuralEvent::MetadataStart => EventModel::MetadataStart,
            StructuralEvent::Text(t) => EventModel::Text(t@),
            StructuralEvent::Other => EventModel::Other,
        }
    }
}

/// The structural events of a document text, in order.
pub uninterp spec fn lex_of(doc: Seq<char>) -> Seq<EventModel>;

/// Relies on pulldown_cmark's `Parser` (with both metadata-block options
/// enabled) wrapped in its `TextMergeStream`: the event stream is a
/// function of the document text alone. The start of a metadata block of
/// either style becomes `MetadataStart`; a text run that the parser borrows
/// whole from the document becomes `Text`; every other event, including a
/// text run assembled from several pieces, becomes `Other`.
#[verifier::external_body]
pub(crate) fn lex_events(doc: &str) -> (r: Vec<StructuralEvent>)
    ensures
        r.deep_view() == lex_of(doc@),
{
    let mut opts = Options::empty();
    opts.insert(Options::ENABLE_YAML_STYLE_METADATA_BLOCKS);
    opts.insert(Options::ENABLE_PLUSES_DELIMITED_METADATA_BLOCKS);
    TextMergeStream::new(Parser::new_ext(doc, opts))
        .map(|ev| match ev {
            Event::Start(Tag::MetadataBlock(_)) => StructuralEvent::MetadataStart,
            Event::Text(CowStr::Borrowed(t)) => StructuralEvent::Text(t.to_string()),
            _ => StructuralEvent::Other,
        })
        .collect()
}

/// The raw text of the first metadata block of an event stream: every
/// leading metadata-block-start event is skipped, and the next event must
/// be a single contiguous text run, whose content is the result. A stream
/// that ends first, or whose first non-skipped event is anything else,
/// locates nothing.
pub open spec fn locate_spec(events: Seq<EventModel>) -> Option<Seq<char>>
    decreases events.len(),
{
    if events.len() == 0 {
        None
    } else {
        match events[0] {
            EventModel::MetadataStart => locate_spec(events.drop_first()),
            EventModel::Text(t) => Some(t),
            EventModel::Other => None,
        }
    }
}

/// The metadata text of a document: what the locator finds in the
/// document's lexed event stream.
pub open spec fn meta_text_of(doc: Seq<char>) -> Option<Seq<char>> {
    locate_spec(lex_of(doc))
}

/// Finds the raw text of the first metadata block in an event stream.
pub fn locate_metadata(events: &Vec<StructuralEvent>) -> (r: Option<String>)
    ensures
        match r {
            Some(t) => locate_spec(events.deep_view()) == Some(t@),
            None => locate_spec(events.deep_view()) is None,
        },
{
    let mut i: usize = 0;
    proof {
        assert(events.deep_view().skip(0) =~= events.deep_view());
    }
    while i < events.len()
        invariant
            i <= events@.len(),
            locate_spec(events.deep_view()) == locate_spec(events.deep_view().skip(i as int)),
        decreases events@.len() - i,
    {
        proof {
            assert(events.deep_view().skip(i as int).drop_first() =~= events.deep_view().skip(
                i + 1,
            ));
            assert(events.deep_view().skip(i as int)[0] == events.deep_view()[i as int]);
        }
        match &events[i] {
            StructuralEvent::MetadataStart => {
                i = i + 1;
            },
            StructuralEvent::Text(t) => {
                return Some(t.clone());
            },
            StructuralEvent::Other => {
                return None;
            },
        }
    }
    proof {
        assert(events.deep_view().skip(i as int) =~= Seq::<EventModel>::empty());
    }
    None
}

} // verus!
