//! The entry record: the data entity the client manages, its identity rule,
//! and its single-entry serializer.

use vstd::prelude::*;

use crate::digits::spec_dec;
use crate::digits::u16_to_string;
use crate::digits::u32_to_string;
use crate::event::AttrV;
use crate::event::EventV;
use crate::event::XmlAttr;
use crate::event::XmlEvent;
use crate::event::escape_text;
use crate::event::events_view;
use crate::event::spec_doc_text;
use crate::event::spec_escape;
use crate::timefmt::spec_rfc2822;
use crate::timefmt::utc_rfc2822;

verus! {

/// One calendar/task entry.
///
/// The identifier is absent until the first allocation, locally or by the
/// server. `removed` is the local-only tombstone; it is never serialized.
/// The tag list is likewise local-only.
pub struct AppElement {
    pub id: Option<u16>,
    pub title: String,
    pub description: String,
    pub due: Option<u32>,
    pub removed: bool,
    pub tags: Option<Vec<String>>,
}

/// The mathematical value of a record.
#[verifier::ext_equal]
pub struct ElemV {
    pub id: Option<u16>,
    pub title: Seq<char>,
    pub description: Seq<char>,
    pub due: Option<u32>,
    pub removed: bool,
    pub tags: Option<Seq<Seq<char>>>,
}

impl View for AppElement {
    type V = ElemV;

    open spec fn view(&self) -> ElemV {
        ElemV {
            id: self.id,
            title: self.title@,
            description: self.description@,
            due: self.due,
            removed: self.removed,
            tags: match self.tags {
                Some(ts) => Some(ts@.map_values(|t: String| t@)),
                None => None,
            },
        }
    }
}

/// The record with its identifier set.
pub open spec fn spec_with_id(e: ElemV, v: u16) -> ElemV {
    ElemV { id: Some(v), ..e }
}

/// The record with its tombstone set.
pub open spec fn spec_with_removed(e: ElemV) -> ElemV {
    ElemV { removed: true, ..e }
}

/// The identity rule: two records are the same entry iff both have an
/// identifier and the identifiers match. A record without an identifier is
/// new and is the same entry as nothing, not even itself.
pub open spec fn spec_same_entry(a: ElemV, b: ElemV) -> bool {
    match a.id {
        Some(i) => b.id == Some(i),
        None => false,
    }
}

impl AppElement {
    /// Builds a record; it starts without the tombstone.
    pub fn new(
        id: Option<u16>,
        title: String,
        description: String,
        due: Option<u32>,
        tags: Option<Vec<String>>,
    ) -> (r: AppElement)
        ensures
            r@ == (ElemV {
                id,
                title: title@,
                description: description@,
                due,
                removed: false,
                tags: match tags {
                    Some(ts) => Some(ts@.map_values(|t: String| t@)),
                    None => None,
                },
            }),
    {
        AppElement { id, title, description, due, removed: false, tags }
    }

    /// The identity rule, executably: see `spec_same_entry`.
    pub fn same_entry(&self, other: &AppElement) -> (r: bool)
        ensures
            r == spec_same_entry(self@, other@),
    {
        match self.id {
            Some(i) => match other.id {
                Some(j) => i == j,
                None => false,
            },
            None => false,
        }
    }

    pub fn id(&self) -> (r: Option<u16>)
        ensures
            r == self@.id,
    {
        self.id
    }

    pub fn title(&self) -> (r: &String)
        ensures
            r@ == self@.title,
    {
        &self.title
    }

    pub fn description(&self) -> (r: &String)
        ensures
            r@ == self@.description,
    {
        &self.description
    }

    pub fn is_removed(&self) -> (r: bool)
        ensures
            r == self@.removed,
    {
        self.removed
    }

    pub fn tags(&self) -> (r: &Option<Vec<String>>)
        ensures
            self@.tags matches Some(ts) ==> (*r matches Some(v) && v@.map_values(
                |t: String| t@,
            ) == ts),
            self@.tags is None ==> *r is None,
    {
        &self.tags
    }

    /// Whether the due timestamp lies strictly inside the window; a record
    /// without one counts as due at the largest timestamp, as the filter
    /// has always treated it.
    pub fn due_within(&self, start: u32, end: u32) -> (r: bool)
        ensures
            r == ({
                let t = match self@.due {
                    Some(d) => d,
                    None => u32::MAX,
                };
                start < t && t < end
            }),
    {
        let t = match self.due {
            Some(d) => d,
            None => u32::MAX,
        };
        start < t && t < end
    }

    /// The due timestamp.
    pub fn get_timestamp(&self) -> (r: Option<u32>)
        ensures
            r == self@.due,
    {
        self.due
    }

    /// The title followed by the description as one string, for searching
    /// and filtering.
    pub fn get_text(&self) -> (r: String)
        ensures
            r@ == self@.title + (" ")@ + self@.description,
    {
        let mut s = String::new();
        s.append(self.title.as_str());
        s.append(" ");
        s.append(self.description.as_str());
        proof {
            assert(s@ =~= self@.title + (" ")@ + self@.description);
        }
        s
    }

    /// The record with its tombstone set.
    pub fn with_removed(self) -> (r: AppElement)
        ensures
            r@ == spec_with_removed(self@),
    {
        AppElement { removed: true, ..self }
    }

    /// Replaces the editable fields, keeping identifier and tombstone.
    pub fn modify(
        &mut self,
        title: String,
        description: String,
        due: Option<u32>,
        tags: Option<Vec<String>>,
    )
        ensures
            final(self)@ == (ElemV {
                id: old(self)@.id,
                title: title@,
                description: description@,
                due,
                removed: old(self)@.removed,
                tags: match tags {
                    Some(ts) => Some(ts@.map_values(|t: String| t@)),
                    None => None,
                },
            }),
    {
        self.title = title;
        self.description = description;
        self.due = due;
        self.tags = tags;
    }
}

/// The serialized subtree of a record: nothing at all without an
/// identifier; otherwise the entry element with its `id` attribute, the
/// `name` and `description` children, and the `due` child only when a due
/// timestamp is present.
pub open spec fn spec_entry_events(e: ElemV) -> Seq<EventV> {
    match e.id {
        None => Seq::empty(),
        Some(id) => seq![
            EventV::Start {
                name: ("entry")@,
                attrs: seq![AttrV { key: ("id")@, value: spec_dec(id as nat) }],
            },
            EventV::Start { name: ("name")@, attrs: Seq::empty() },
            EventV::Text { raw: spec_escape(e.title), text: e.title },
            EventV::End { name: ("name")@ },
            EventV::Start { name: ("description")@, attrs: Seq::empty() },
            EventV::Text { raw: spec_escape(e.description), text: e.description },
            EventV::End { name: ("description")@ },
        ] + (match e.due {
            Some(d) => seq![
                EventV::Start { name: ("due")@, attrs: Seq::empty() },
                EventV::Text { raw: spec_escape(spec_dec(d as nat)), text: spec_dec(d as nat) },
                EventV::End { name: ("due")@ },
            ],
            None => Seq::empty(),
        }) + seq![EventV::End { name: ("entry")@ }],
    }
}

impl AppElement {
    /// Serializes the record as events; silently nothing without an
    /// identifier.
    pub fn to_events(&self) -> (evs: Vec<XmlEvent>)
        ensures
            events_view(evs@) == spec_entry_events(self@),
    {
        let mut evs: Vec<XmlEvent> = Vec::new();
        let id = match self.id {
            None => {
                proof {
                    assert(events_view(evs@) =~~= spec_entry_events(self@));
                }
                return evs;
            },
            Some(id) => id,
        };
        let mut attrs: Vec<XmlAttr> = Vec::new();
        attrs.push(XmlAttr { key: String::from_str("id"), value: u16_to_string(id) });
        evs.push(XmlEvent::Start { name: String::from_str("entry"), attrs });
        evs.push(XmlEvent::Start { name: String::from_str("name"), attrs: Vec::new() });
        evs.push(XmlEvent::Text { raw: escape_text(self.title.as_str()), text: self.title.clone() });
        evs.push(XmlEvent::End { name: String::from_str("name") });
        evs.push(XmlEvent::Start { name: String::from_str("description"), attrs: Vec::new() });
        evs.push(
            XmlEvent::Text {
                raw: escape_text(self.description.as_str()),
                text: self.description.clone(),
            },
        );
        evs.push(XmlEvent::End { name: String::from_str("description") });
        match self.due {
            Some(d) => {
                let dtext = u32_to_string(d);
                evs.push(XmlEvent::Start { name: String::from_str("due"), attrs: Vec::new() });
                evs.push(XmlEvent::Text { raw: escape_text(dtext.as_str()), text: dtext });
                evs.push(XmlEvent::End { name: String::from_str("due") });
            },
            None => {},
        }
        evs.push(XmlEvent::End { name: String::from_str("entry") });
        proof {
            assert(events_view(evs@) =~~= spec_entry_events(self@));
        }
        evs
    }

    /// Serializes the record as document text.
    pub fn to_xml_string(&self) -> (r: String)
        ensures
            r@ == spec_doc_text(spec_entry_events(self@)),
    {
        let evs = self.to_events();
        crate::event::events_to_text(&evs)
    }
}

/// The display text of a record, with the due timestamp rendered in UTC.
pub open spec fn spec_display_text(e: ElemV) -> Seq<char> {
    ("ID: ")@ + (match e.id {
        Some(i) => spec_dec(i as nat),
        None => ("None")@,
    }) + ("\nTitle: ")@ + e.title + ("\nDescription: ")@ + e.description + ("\nDue: \"")@
        + (match e.due {
        Some(d) => spec_rfc2822(d),
        None => ("None")@,
    }) + ("\"\n")@
}

impl AppElement {
    /// Renders the record for display.
    pub fn to_display_string(&self) -> (r: String)
        ensures
            r@ == spec_display_text(self@),
    {
        let mut s = String::new();
        s.append("ID: ");
        match self.id {
            Some(i) => {
                let it = u16_to_string(i);
                s.append(it.as_str());
            },
            None => s.append("None"),
        }
        s.append("\nTitle: ");
        s.append(self.title.as_str());
        s.append("\nDescription: ");
        s.append(self.description.as_str());
        s.append("\nDue: \"");
        match self.due {
            Some(d) => {
                let dt = utc_rfc2822(d);
                s.append(dt.as_str());
            },
            None => s.append("None"),
        }
        s.append("\"\n");
        proof {
            assert(s@ =~= spec_display_text(self@));
        }
        s
    }
}

} // verus!
