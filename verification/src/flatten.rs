//! The single-entry flattener: renders the one entry subtree of a document
//! as indented `tag: value` lines, best-effort.

use vstd::prelude::*;

use crate::event::EventV;
use crate::event::XmlEvent;
use crate::event::events_view;
use crate::event::string_is;
use crate::xmlread::parse_events_trimmed;
use crate::xmlread::spec_parse_trimmed;

verus! {

/// A run of indentation spaces.
pub open spec fn spec_spaces(n: nat) -> Seq<char>
    decreases n,
{
    if n == 0 {
        Seq::empty()
    } else {
        spec_spaces((n - 1) as nat) + seq![' ']
    }
}

/// The flattener's state: whether it is inside the entry subtree, the
/// current indentation depth, and the text accumulated so far.
#[verifier::ext_equal]
pub struct FlatSt {
    pub enabled: bool,
    pub indent: nat,
    pub out: Seq<char>,
}

/// What the flattener does with one event. The start of the entry element
/// switches it on and its end switches it off, neither printing anything.
/// While on: a start tag prints indentation, the tag name and `: ` and
/// deepens the indentation; text content prints as it stands (unescaped);
/// an end tag prints a line break and shallows the indentation, which
/// never goes below zero. Everything else is ignored.
pub open spec fn spec_flat_step(st: FlatSt, ev: EventV) -> FlatSt {
    match ev {
        EventV::Start { name, attrs } => if name == ("entry")@ {
            FlatSt { enabled: true, ..st }
        } else if st.enabled {
            FlatSt {
                enabled: st.enabled,
                indent: st.indent + 1,
                out: st.out + spec_spaces(st.indent) + name + (": ")@,
            }
        } else {
            st
        },
        EventV::End { name } => if name == ("entry")@ {
            FlatSt { enabled: false, ..st }
        } else if st.enabled {
            FlatSt {
                enabled: st.enabled,
                indent: if st.indent > 0 {
                    (st.indent - 1) as nat
                } else {
                    0
                },
                out: st.out + ("\n")@,
            }
        } else {
            st
        },
        EventV::Text { raw, text } => if st.enabled {
            FlatSt { out: st.out + text, ..st }
        } else {
            st
        },
        _ => st,
    }
}

/// The flattener over the remaining events.
pub open spec fn spec_flat_run(evs: Seq<EventV>, st: FlatSt) -> FlatSt
    decreases evs.len(),
{
    if evs.len() == 0 {
        st
    } else {
        spec_flat_run(evs.drop_first(), spec_flat_step(st, evs.first()))
    }
}

/// The flattened text of a whole event stream.
pub open spec fn spec_flatten(evs: Seq<EventV>) -> Seq<char> {
    spec_flat_run(evs, FlatSt { enabled: false, indent: 0, out: Seq::empty() }).out
}

/// Appends `n` spaces.
fn push_spaces(out: &mut String, n: usize)
    ensures
        final(out)@ == old(out)@ + spec_spaces(n as nat),
{
    let mut i: usize = 0;
    while i < n
        invariant
            0 <= i <= n,
            out@ == old(out)@ + spec_spaces(i as nat),
        decreases n - i,
    {
        out.append(" ");
        proof {
            reveal_strlit(" ");
            assert((" ")@ =~= seq![' ']);
        }
        i = i + 1;
    }
}

/// Flattens the document's entry subtree for display, best-effort: the
/// text accumulated up to the end of input or the first parse error.
pub fn flatten_entry(xml: &str) -> (r: String)
    ensures
        r@ == spec_flatten(spec_parse_trimmed(xml@)),
{
    let mut evs = parse_events_trimmed(xml);
    let ghost all = events_view(evs@);
    let n0 = evs.len();
    let mut out = String::new();
    let mut enabled = false;
    let mut indent: usize = 0;
    proof {
        assert(all.len() == n0 as nat);
        assert(all.len() <= usize::MAX);
    }
    while evs.len() > 0
        invariant
            spec_flat_run(events_view(evs@), FlatSt { enabled, indent: indent as nat, out: out@ })
                == spec_flat_run(all, FlatSt { enabled: false, indent: 0, out: Seq::empty() }),
            indent as nat + events_view(evs@).len() <= all.len(),
            all.len() <= usize::MAX,
        decreases evs@.len(),
    {
        let ghost pre_evs = events_view(evs@);
        let ghost pre_st = FlatSt { enabled, indent: indent as nat, out: out@ };
        let ev = evs.remove(0);
        proof {
            assert(pre_evs.first() == ev@);
            assert(events_view(evs@) =~= pre_evs.drop_first());
        }
        match &ev {
            XmlEvent::Start { name, attrs } => {
                if string_is(name, "entry") {
                    enabled = true;
                } else if enabled {
                    push_spaces(&mut out, indent);
                    out.append(name.as_str());
                    out.append(": ");
                    indent = indent + 1;
                }
            },
            XmlEvent::End { name } => {
                if string_is(name, "entry") {
                    enabled = false;
                } else if enabled {
                    out.append("\n");
                    if indent > 0 {
                        indent = indent - 1;
                    }
                }
            },
            XmlEvent::Text { raw: _, text } => {
                if enabled {
                    out.append(text.as_str());
                }
            },
            _ => {},
        }
        proof {
            let stepped = spec_flat_step(pre_st, ev@);
            assert(enabled == stepped.enabled);
            assert(indent as nat == stepped.indent);
            assert(out@ =~= stepped.out);
            assert(FlatSt { enabled, indent: indent as nat, out: out@ } =~= stepped);
        }
    }
    proof {
        assert(events_view(evs@).len() == 0);
    }
    out
}

} // verus!
