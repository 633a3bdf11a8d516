//! The XML event alphabet of the patch engine.
//!
//! The engine streams a document as a sequence of events. Reading is done by
//! an outside parser (see `xmlread`); writing is done here, in verified code,
//! so the byte-level output of every pass is pinned down exactly:
//! `spec_doc_text` gives the text of an event sequence, and `events_to_text`
//! produces it.

use vstd::prelude::*;

verus! {

/// One attribute of a start tag. `value` holds the unescaped attribute text.
pub struct XmlAttr {
    pub key: String,
    pub value: String,
}

/// The mathematical value of an attribute.
#[verifier::ext_equal]
pub struct AttrV {
    pub key: Seq<char>,
    pub value: Seq<char>,
}

impl View for XmlAttr {
    type V = AttrV;

    open spec fn view(&self) -> AttrV {
        AttrV { key: self.key@, value: self.value@ }
    }
}

/// One event of the stream.
///
/// `Text` keeps both the raw form as it stood in the source (entities still
/// escaped, so pass-through reproduces the input bytes) and the unescaped
/// text (what the document means). `Eof` marks the end of input and `Failed`
/// an unrecoverable parse error; neither carries document text.
pub enum XmlEvent {
    Start { name: String, attrs: Vec<XmlAttr> },
    End { name: String },
    Empty { name: String, attrs: Vec<XmlAttr> },
    Text { raw: String, text: String },
    CData { text: String },
    Comment { text: String },
    Decl { text: String },
    PI { text: String },
    DocType { text: String },
    Eof,
    Failed,
}

/// The mathematical value of an event.
#[verifier::ext_equal]
pub enum EventV {
    Start { name: Seq<char>, attrs: Seq<AttrV> },
    End { name: Seq<char> },
    Empty { name: Seq<char>, attrs: Seq<AttrV> },
    Text { raw: Seq<char>, text: Seq<char> },
    CData { text: Seq<char> },
    Comment { text: Seq<char> },
    Decl { text: Seq<char> },
    PI { text: Seq<char> },
    DocType { text: Seq<char> },
    Eof,
    Failed,
}

/// The views of a sequence of attributes.
pub open spec fn attrs_view(s: Seq<XmlAttr>) -> Seq<AttrV> {
    s.map_values(|a: XmlAttr| a@)
}

impl View for XmlEvent {
    type V = EventV;

    open spec fn view(&self) -> EventV {
        match self {
            XmlEvent::Start { name, attrs } => EventV::Start {
                name: name@,
                attrs: attrs_view(attrs@),
            },
            XmlEvent::End { name } => EventV::End { name: name@ },
            XmlEvent::Empty { name, attrs } => EventV::Empty {
                name: name@,
                attrs: attrs_view(attrs@),
            },
            XmlEvent::Text { raw, text } => EventV::Text { raw: raw@, text: text@ },
            XmlEvent::CData { text } => EventV::CData { text: text@ },
            XmlEvent::Comment { text } => EventV::Comment { text: text@ },
            XmlEvent::Decl { text } => EventV::Decl { text: text@ },
            XmlEvent::PI { text } => EventV::PI { text: text@ },
            XmlEvent::DocType { text } => EventV::DocType { text: text@ },
            XmlEvent::Eof => EventV::Eof,
            XmlEvent::Failed => EventV::Failed,
        }
    }
}

/// The views of a sequence of events.
pub open spec fn events_view(s: Seq<XmlEvent>) -> Seq<EventV> {
    s.map_values(|e: XmlEvent| e@)
}

/// Whether a string equals a literal, by their character sequences.
pub fn string_is(s: &String, lit: &str) -> (r: bool)
    ensures
        r == (s@ == lit@),
{
    let o = String::from_str(lit);
    *s == o
}

/// The XML escape of one character: the five standard entities, all other
/// characters unchanged.
pub open spec fn esc_char(c: char) -> Seq<char> {
    if c == '<' {
        seq!['&', 'l', 't', ';']
    } else if c == '>' {
        seq!['&', 'g', 't', ';']
    } else if c == '&' {
        seq!['&', 'a', 'm', 'p', ';']
    } else if c == '\'' {
        seq!['&', 'a', 'p', 'o', 's', ';']
    } else if c == '"' {
        seq!['&', 'q', 'u', 'o', 't', ';']
    } else {
        seq![c]
    }
}

/// The XML escape of a text: each character escaped in place.
pub open spec fn spec_escape(s: Seq<char>) -> Seq<char>
    decreases s.len(),
{
    if s.len() == 0 {
        Seq::empty()
    } else {
        spec_escape(s.drop_last()) + esc_char(s.last())
    }
}

/// Escapes text for element content or an attribute value.
pub fn escape_text(s: &str) -> (r: String)
    ensures
        r@ == spec_escape(s@),
{
    let n = s.unicode_len();
    let mut out = String::new();
    let mut i: usize = 0;
    while i < n
        invariant
            0 <= i <= n,
            n == s@.len(),
            out@ == spec_escape(s@.subrange(0, i as int)),
        decreases n - i,
    {
        let c = s.get_char(i);
        proof {
            reveal_strlit("&lt;");
            reveal_strlit("&gt;");
            reveal_strlit("&amp;");
            reveal_strlit("&apos;");
            reveal_strlit("&quot;");
        }
        match c {
            '<' => out.append("&lt;"),
            '>' => out.append("&gt;"),
            '&' => out.append("&amp;"),
            '\'' => out.append("&apos;"),
            '"' => out.append("&quot;"),
            _ => {
                let piece = s.substring_char(i, i + 1);
                out.append(piece);
            },
        }
        proof {
            let prev = s@.subrange(0, i as int);
            let cur = s@.subrange(0, i as int + 1);
            assert(cur.drop_last() =~= prev);
            assert(cur.last() == c);
            assert(out@ =~= spec_escape(prev) + esc_char(c));
        }
        i = i + 1;
    }
    proof {
        assert(s@.subrange(0, n as int) =~= s@);
    }
    out
}

/// The text of one attribute as a writer emits it: a space, the key,
/// `="`, the escaped value, `"`.
pub open spec fn spec_attr_text(a: AttrV) -> Seq<char> {
    seq![' '] + a.key + seq!['=', '"'] + spec_escape(a.value) + seq!['"']
}

/// The text of an attribute list.
pub open spec fn spec_attrs_text(attrs: Seq<AttrV>) -> Seq<char>
    decreases attrs.len(),
{
    if attrs.len() == 0 {
        Seq::empty()
    } else {
        spec_attrs_text(attrs.drop_last()) + spec_attr_text(attrs.last())
    }
}

/// The text of one event, exactly as the writer emits it.
pub open spec fn spec_event_text(e: EventV) -> Seq<char> {
    match e {
        EventV::Start { name, attrs } => seq!['<'] + name + spec_attrs_text(attrs) + seq!['>'],
        EventV::End { name } => seq!['<', '/'] + name + seq!['>'],
        EventV::Empty { name, attrs } => seq!['<'] + name + spec_attrs_text(attrs) + seq![
            '/',
            '>',
        ],
        EventV::Text { raw, text } => raw,
        EventV::CData { text } => seq!['<', '!', '[', 'C', 'D', 'A', 'T', 'A', '['] + text + seq![
            ']',
            ']',
            '>',
        ],
        EventV::Comment { text } => seq!['<', '!', '-', '-'] + text + seq!['-', '-', '>'],
        EventV::Decl { text } => seq!['<', '?'] + text + seq!['?', '>'],
        EventV::PI { text } => seq!['<', '?'] + text + seq!['?', '>'],
        EventV::DocType { text } => seq!['<', '!', 'D', 'O', 'C', 'T', 'Y', 'P', 'E', ' '] + text
            + seq!['>'],
        EventV::Eof => Seq::empty(),
        EventV::Failed => Seq::empty(),
    }
}

/// The text of a whole event sequence.
pub open spec fn spec_doc_text(evs: Seq<EventV>) -> Seq<char>
    decreases evs.len(),
{
    if evs.len() == 0 {
        Seq::empty()
    } else {
        spec_doc_text(evs.drop_last()) + spec_event_text(evs.last())
    }
}

/// Appends the attribute list text onto `out`.
fn write_attrs_onto(out: &mut String, attrs: &Vec<XmlAttr>)
    ensures
        final(out)@ == old(out)@ + spec_attrs_text(attrs_view(attrs@)),
{
    let n = attrs.len();
    let mut i: usize = 0;
    while i < n
        invariant
            0 <= i <= n,
            n == attrs@.len(),
            out@ == old(out)@ + spec_attrs_text(attrs_view(attrs@).subrange(0, i as int)),
        decreases n - i,
    {
        proof {
            reveal_strlit(" ");
            reveal_strlit("=\"");
            reveal_strlit("\"");
        }
        let a = &attrs[i];
        out.append(" ");
        out.append(a.key.as_str());
        out.append("=\"");
        let esc = escape_text(a.value.as_str());
        out.append(esc.as_str());
        out.append("\"");
        proof {
            let avs = attrs_view(attrs@);
            let prev = avs.subrange(0, i as int);
            let cur = avs.subrange(0, i as int + 1);
            assert(cur.drop_last() =~= prev);
            assert(cur.last() == avs[i as int]);
            assert((" "@) =~= seq![' ']);
            assert(("=\""@) =~= seq!['=', '"']);
            assert(("\""@) =~= seq!['"']);
            assert(out@ =~= old(out)@ + spec_attrs_text(prev) + spec_attr_text(avs[i as int]));
        }
        i = i + 1;
    }
    proof {
        assert(attrs_view(attrs@).subrange(0, n as int) =~= attrs_view(attrs@));
    }
}

/// Appends the text of one event onto `out`.
pub fn write_event_onto(out: &mut String, ev: &XmlEvent)
    ensures
        final(out)@ == old(out)@ + spec_event_text(ev@),
{
    proof {
        reveal_strlit("<");
        reveal_strlit(">");
        reveal_strlit("</");
        reveal_strlit("/>");
        reveal_strlit("<![CDATA[");
        reveal_strlit("]]>");
        reveal_strlit("<!--");
        reveal_strlit("-->");
        reveal_strlit("<?");
        reveal_strlit("?>");
        reveal_strlit("<!DOCTYPE ");
    }
    match ev {
        XmlEvent::Start { name, attrs } => {
            out.append("<");
            out.append(name.as_str());
            write_attrs_onto(out, attrs);
            out.append(">");
            proof {
                assert(out@ =~= old(out)@ + spec_event_text(ev@));
            }
        },
        XmlEvent::End { name } => {
            out.append("</");
            out.append(name.as_str());
            out.append(">");
            proof {
                assert(("</"@) =~= seq!['<', '/']);
                assert(out@ =~= old(out)@ + spec_event_text(ev@));
            }
        },
        XmlEvent::Empty { name, attrs } => {
            out.append("<");
            out.append(name.as_str());
            write_attrs_onto(out, attrs);
            out.append("/>");
            proof {
                assert(("/>"@) =~= seq!['/', '>']);
                assert(out@ =~= old(out)@ + spec_event_text(ev@));
            }
        },
        XmlEvent::Text { raw, text } => {
            out.append(raw.as_str());
            proof {
                assert(out@ =~= old(out)@ + spec_event_text(ev@));
            }
        },
        XmlEvent::CData { text } => {
            out.append("<![CDATA[");
            out.append(text.as_str());
            out.append("]]>");
            proof {
                assert(("<![CDATA["@) =~= seq!['<', '!', '[', 'C', 'D', 'A', 'T', 'A', '[']);
                assert(("]]>"@) =~= seq![']', ']', '>']);
                assert(out@ =~= old(out)@ + spec_event_text(ev@));
            }
        },
        XmlEvent::Comment { text } => {
            out.append("<!--");
            out.append(text.as_str());
            out.append("-->");
            proof {
                assert(("<!--"@) =~= seq!['<', '!', '-', '-']);
                assert(("-->"@) =~= seq!['-', '-', '>']);
                assert(out@ =~= old(out)@ + spec_event_text(ev@));
            }
        },
        XmlEvent::Decl { text } => {
            out.append("<?");
            out.append(text.as_str());
            out.append("?>");
            proof {
                assert(("<?"@) =~= seq!['<', '?']);
                assert(("?>"@) =~= seq!['?', '>']);
                assert(out@ =~= old(out)@ + spec_event_text(ev@));
            }
        },
        XmlEvent::PI { text } => {
            out.append("<?");
            out.append(text.as_str());
            out.append("?>");
            proof {
                assert(("<?"@) =~= seq!['<', '?']);
                assert(("?>"@) =~= seq!['?', '>']);
                assert(out@ =~= old(out)@ + spec_event_text(ev@));
            }
        },
        XmlEvent::DocType { text } => {
            out.append("<!DOCTYPE ");
            out.append(text.as_str());
            out.append(">");
            proof {
                assert(("<!DOCTYPE "@) =~= seq![
                    '<',
                    '!',
                    'D',
                    'O',
                    'C',
                    'T',
                    'Y',
                    'P',
                    'E',
                    ' ',
                ]);
                assert(out@ =~= old(out)@ + spec_event_text(ev@));
            }
        },
        XmlEvent::Eof => {
            proof {
                assert(out@ =~= old(out)@ + spec_event_text(ev@));
            }
        },
        XmlEvent::Failed => {
            proof {
                assert(out@ =~= old(out)@ + spec_event_text(ev@));
            }
        },
    }
}

/// Renders a whole event sequence as document text.
pub fn events_to_text(evs: &Vec<XmlEvent>) -> (r: String)
    ensures
        r@ == spec_doc_text(events_view(evs@)),
{
    let n = evs.len();
    let mut out = String::new();
    let mut i: usize = 0;
    while i < n
        invariant
            0 <= i <= n,
            n == evs@.len(),
            out@ == spec_doc_text(events_view(evs@).subrange(0, i as int)),
        decreases n - i,
    {
        write_event_onto(&mut out, &evs[i]);
        proof {
            let evv = events_view(evs@);
            let prev = evv.subrange(0, i as int);
            let cur = evv.subrange(0, i as int + 1);
            assert(cur.drop_last() =~= prev);
            assert(cur.last() == evv[i as int]);
        }
        i = i + 1;
    }
    proof {
        assert(events_view(evs@).subrange(0, n as int) =~= events_view(evs@));
    }
    out
}

} // verus!
