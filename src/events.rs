//! Decoding the build events that drive the engine.
use vstd::prelude::*;

verus! {

/// An event of the build manager.
#[derive(Debug, PartialEq, Eq)]
pub enum BuildEvent {
    NoOp,
    ArtifactAdded { id: String },
    ArtifactRemoved { id: String },
    ComputeNodeDirty,
    ComputeNodeObsolete,
    ArtifactObsolete,
}

pub ghost enum EventView {
    NoOp,
    ArtifactAdded(Seq<char>),
    ArtifactRemoved(Seq<char>),
    ComputeNodeDirty,
    ComputeNodeObsolete,
    ArtifactObsolete,
}

impl View for BuildEvent {
    type V = EventView;

    open spec fn view(&self) -> EventView {
        match self {
            BuildEvent::NoOp => EventView::NoOp,
            BuildEvent::ArtifactAdded { id } => EventView::ArtifactAdded(id@),
            BuildEvent::ArtifactRemoved { id } => EventView::ArtifactRemoved(id@),
            BuildEvent::ComputeNodeDirty => EventView::ComputeNodeDirty,
            BuildEvent::ComputeNodeObsolete => EventView::ComputeNodeObsolete,
            BuildEvent::ArtifactObsolete => EventView::ArtifactObsolete,
        }
    }
}

pub open spec fn id_or_unknown(id: Option<Seq<char>>) -> Seq<char> {
    match id {
        Some(s) => s,
        None => "unknown"@,
    }
}

/// The event a message stands for: only the build manager's messages count,
/// and of those only the known detail types; an artifact event without an id
/// names `unknown`.
pub open spec fn decode_spec(
    source: Seq<char>,
    detail_type: Seq<char>,
    detail_id: Option<Seq<char>>,
) -> Option<EventView> {
    if source != "curio.buildmanager"@ {
        None
    } else if detail_type == "NoOp"@ {
        Some(EventView::NoOp)
    } else if detail_type == "ArtifactAdded"@ {
        Some(EventView::ArtifactAdded(id_or_unknown(detail_id)))
    } else if detail_type == "ArtifactRemoved"@ {
        Some(EventView::ArtifactRemoved(id_or_unknown(detail_id)))
    } else {
        None
    }
}

fn same(a: &str, b: &str) -> (r: bool)
    ensures
        r == (a@ == b@),
{
    String::from_str(a) == String::from_str(b)
}

fn id_or_unknown_exec(id: Option<String>) -> (r: String)
    ensures
        r@ == id_or_unknown(id.deep_view()),
{
    match id {
        Some(s) => s,
        None => String::from_str("unknown"),
    }
}

/// Decodes a message with the given source, detail type and `id` detail.
pub fn decode_event(source: &str, detail_type: &str, detail_id: Option<String>) -> (r: Option<
    BuildEvent,
>)
    ensures
        match r {
            Some(e) => decode_spec(source@, detail_type@, detail_id.deep_view()) == Some(e@),
            None => decode_spec(source@, detail_type@, detail_id.deep_view()) is None,
        },
{
    if !same(source, "curio.buildmanager") {
        None
    } else if same(detail_type, "NoOp") {
        Some(BuildEvent::NoOp)
    } else if same(detail_type, "ArtifactAdded") {
        Some(BuildEvent::ArtifactAdded { id: id_or_unknown_exec(detail_id) })
    } else if same(detail_type, "ArtifactRemoved") {
        Some(BuildEvent::ArtifactRemoved { id: id_or_unknown_exec(detail_id) })
    } else {
        None
    }
}

} // verus!
