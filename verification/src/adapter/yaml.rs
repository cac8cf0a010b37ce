//! The YAML features that declarations may not use: aliases, anchors, tags,
//! merge keys and multi-document streams. A scan watches the parser's events
//! and keeps the first forbidden feature it meets.
use vstd::prelude::*;

use crate::text::str_eq;

verus! {

/// A parser event, by what the scan reads of it.
#[derive(Debug, Clone, PartialEq, Eq)]
pub enum YamlEvent {
    Alias,
    Scalar { value: String, anchor_id: usize, tagged: bool },
    SequenceStart { anchor_id: usize, tagged: bool },
    MappingStart { anchor_id: usize, tagged: bool },
    SequenceEnd,
    MappingEnd,
    Other,
}

/// An event by the texts it holds.
pub enum YamlEventView {
    Alias,
    Scalar(Seq<char>, usize, bool),
    SequenceStart(usize, bool),
    MappingStart(usize, bool),
    SequenceEnd,
    MappingEnd,
    Other,
}

impl View for YamlEvent {
    type V = YamlEventView;

    open spec fn view(&self) -> YamlEventView {
        match self {
            YamlEvent::Alias => YamlEventView::Alias,
            YamlEvent::Scalar { value, anchor_id, tagged } => YamlEventView::Scalar(
                value@,
                *anchor_id,
                *tagged,
            ),
            YamlEvent::SequenceStart { anchor_id, tagged } => YamlEventView::SequenceStart(
                *anchor_id,
                *tagged,
            ),
            YamlEvent::MappingStart { anchor_id, tagged } => YamlEventView::MappingStart(
                *anchor_id,
                *tagged,
            ),
            YamlEvent::SequenceEnd => YamlEventView::SequenceEnd,
            YamlEvent::MappingEnd => YamlEventView::MappingEnd,
            YamlEvent::Other => YamlEventView::Other,
        }
    }
}

/// The state of a scan: the forbidden feature found, if any, and the scalar
/// that stands in key position of the current mapping entry, if any.
pub struct ScanState {
    pub pending: Option<Seq<char>>,
    pub key: Option<Seq<char>>,
}

/// One step of the scan. A feature once found stays; an alias, an anchor or
/// a tag is forbidden; a `<<` scalar in key position is a merge key; scalars
/// alternate between key and value position, and the start or end of a
/// collection resets the position.
pub open spec fn scan_step(s: ScanState, e: YamlEventView) -> ScanState {
    if s.pending is Some {
        s
    } else {
        match e {
            YamlEventView::Alias => ScanState { pending: Some("aliases"@), key: s.key },
            YamlEventView::Scalar(value, anchor_id, tagged) => if anchor_id > 0 {
                ScanState { pending: Some("anchors"@), key: s.key }
            } else if tagged {
                ScanState { pending: Some("tags"@), key: s.key }
            } else if value == "<<"@ && s.key is None {
                ScanState { pending: Some("merge keys"@), key: s.key }
            } else {
                ScanState {
                    pending: None,
                    key: if s.key is None {
                        Some(value)
                    } else {
                        None
                    },
                }
            },
            YamlEventView::SequenceStart(anchor_id, tagged) | YamlEventView::MappingStart(
                anchor_id,
                tagged,
            ) => ScanState {
                pending: if tagged {
                    Some("tags"@)
                } else if anchor_id > 0 {
                    Some("anchors"@)
                } else {
                    None
                },
                key: None,
            },
            YamlEventView::SequenceEnd | YamlEventView::MappingEnd => ScanState {
                pending: None,
                key: None,
            },
            YamlEventView::Other => s,
        }
    }
}

/// The state after scanning the events from a fresh start.
pub open spec fn scan_events(events: Seq<YamlEventView>) -> ScanState
    decreases events.len(),
{
    if events.len() == 0 {
        ScanState { pending: None, key: None }
    } else {
        scan_step(scan_events(events.drop_last()), events.last())
    }
}

/// A scan of parser events for forbidden YAML features.
#[derive(Debug)]
pub struct ForbiddenFeatureReceiver {
    pending_error: Option<&'static str>,
    current_mapping_key: Option<String>,
}

impl Default for ForbiddenFeatureReceiver {
    /// A scan that has seen nothing.
    fn default() -> (r: Self)
        ensures
            r.state() == scan_events(Seq::empty()),
    {
        ForbiddenFeatureReceiver { pending_error: None, current_mapping_key: None }
    }
}

impl ForbiddenFeatureReceiver {
    pub closed spec fn state(self) -> ScanState {
        ScanState {
            pending: match self.pending_error {
                Some(f) => Some(f@),
                None => None,
            },
            key: match self.current_mapping_key {
                Some(k) => Some(k@),
                None => None,
            },
        }
    }

    /// Takes in one event, as `scan_step` states.
    pub fn on_event(&mut self, event: YamlEvent)
        ensures
            final(self).state() == scan_step(old(self).state(), event@),
    {
        if self.pending_error.is_some() {
            return;
        }
        match event {
            YamlEvent::Alias => {
                self.pending_error = Some("aliases");
            },
            YamlEvent::Scalar { value, anchor_id, tagged } => {
                if anchor_id > 0 {
                    self.pending_error = Some("anchors");
                    return;
                }
                if tagged {
                    self.pending_error = Some("tags");
                    return;
                }
                if str_eq(value.as_str(), "<<") && self.current_mapping_key.is_none() {
                    self.pending_error = Some("merge keys");
                    return;
                }
                self.current_mapping_key = match self.current_mapping_key.take() {
                    None => Some(value),
                    Some(_) => None,
                };
            },
            YamlEvent::SequenceStart { anchor_id, tagged }
            | YamlEvent::MappingStart { anchor_id, tagged } => {
                if anchor_id > 0 {
                    self.pending_error = Some("anchors");
                }
                if tagged {
                    self.pending_error = Some("tags");
                }
                self.current_mapping_key = None;
            },
            YamlEvent::SequenceEnd | YamlEvent::MappingEnd => {
                self.current_mapping_key = None;
            },
            YamlEvent::Other => {},
        }
    }

    /// Ends the scan: refused with the feature found, if one was.
    pub fn finish(self) -> (r: Result<(), &'static str>)
        ensures
            match self.state().pending {
                Some(f) => r matches Err(g) && g@ == f,
                None => r is Ok,
            },
    {
        match self.pending_error {
            Some(feature) => Err(feature),
            None => Ok(()),
        }
    }
}

/// Why a stream of documents is refused, by how many documents it has.
#[derive(Debug, Clone, Copy, PartialEq, Eq, Structural)]
pub enum StreamRefusal {
    EmptyInput,
    MultiDocument,
}

/// A declaration is exactly one document: none is an empty input, a second
/// one makes a multi-document stream.
pub fn check_document_count(has_first: bool, has_second: bool) -> (r: Result<(), StreamRefusal>)
    ensures
        !has_first ==> r == Err::<(), StreamRefusal>(StreamRefusal::EmptyInput),
        has_first && has_second ==> r == Err::<(), StreamRefusal>(StreamRefusal::MultiDocument),
        has_first && !has_second ==> r is Ok,
{
    if !has_first {
        return Err(StreamRefusal::EmptyInput);
    }
    if has_second {
        return Err(StreamRefusal::MultiDocument);
    }
    Ok(())
}

/// Once a forbidden feature is found, no later event changes it: the scan
/// reports the first forbidden feature of the stream.
pub proof fn lemma_first_feature_stays(events: Seq<YamlEventView>, i: int)
    requires
        0 <= i <= events.len(),
        scan_events(events.take(i)).pending is Some,
    ensures
        scan_events(events).pending == scan_events(events.take(i)).pending,
    decreases events.len(),
{
    if i == events.len() {
        assert(events.take(i) =~= events);
    } else {
        assert(events.drop_last().take(i) =~= events.take(i));
        lemma_first_feature_stays(events.drop_last(), i);
    }
}

} // verus!
