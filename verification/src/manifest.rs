//! Finding the client's executable in a Windows package manifest
//! (`AppxManifest.xml`), read with `quick_xml`.

use vstd::prelude::*;
use vstd::string::*;
use crate::text::{same_text, str_chars};
use crate::xml::{next_xml_event, open_xml_stream, xml_events};
pub use crate::xml::{XmlEvent, XmlEventView};

verus! {

/// Whether an `Application` element is the main one (its last `Id`
/// attribute is `App`), and its last `Executable` attribute; malformed
/// attributes are skipped.
pub open spec fn application_attributes(attrs: Seq<Option<(Seq<char>, Seq<char>)>>) -> (bool, Option<Seq<char>>)
    decreases attrs.len(),
{
    if attrs.len() == 0 {
        (false, None)
    } else {
        let (is_app, exe) = application_attributes(attrs.drop_last());
        match attrs.last() {
            None => (is_app, exe),
            Some((key, value)) => if key == "Id"@ {
                (value == "App"@, exe)
            } else if key == "Executable"@ {
                (is_app, Some(value))
            } else {
                (is_app, exe)
            },
        }
    }
}

/// The decision that the events `evs` lead to: `None` while undecided; the
/// executable (possibly absent) of the first start tag `Application` that is
/// the main application; nothing when the reader fails or the document ends first.
pub open spec fn manifest_decision(evs: Seq<XmlEventView>) -> Option<Option<Seq<char>>>
    decreases evs.len(),
{
    if evs.len() == 0 {
        None
    } else {
        match evs[0] {
            XmlEventView::Failed => Some(None),
            XmlEventView::Eof => Some(None),
            XmlEventView::Start { name, attributes } => if name == "Application"@ && application_attributes(attributes).0 {
                Some(application_attributes(attributes).1)
            } else {
                manifest_decision(evs.drop_first())
            },
            XmlEventView::Other => manifest_decision(evs.drop_first()),
        }
    }
}

/// The executable that the events `evs` name, if they decide on one.
pub open spec fn manifest_executable(evs: Seq<XmlEventView>) -> Option<Seq<char>> {
    match manifest_decision(evs) {
        Some(r) => r,
        None => None,
    }
}

fn attributes_of(attrs: &Vec<Option<(String, String)>>) -> (res: (bool, Option<String>))
    ensures
        (res.0, res.1.deep_view()) == application_attributes(attrs.deep_view()),
{
    let ghost all = attrs.deep_view();
    let mut is_app = false;
    let mut exe: Option<String> = None;
    let mut i: usize = 0;
    while i < attrs.len()
        invariant
            i <= attrs.len(),
            all == attrs.deep_view(),
            (is_app, exe.deep_view()) == application_attributes(all.take(i as int)),
        decreases attrs.len() - i,
    {
        assert(all.take(i + 1).drop_last() =~= all.take(i as int));
        match &attrs[i] {
            None => {},
            Some((key, value)) => {
                if same_text(key.as_str(), "Id") {
                    is_app = same_text(value.as_str(), "App");
                } else if same_text(key.as_str(), "Executable") {
                    exe = Some(value.clone());
                }
            },
        }
        i = i + 1;
    }
    assert(all.take(attrs.len() as int) =~= all);
    (is_app, exe)
}

fn event_decision(ev: &XmlEvent) -> (res: Option<Option<String>>)
    ensures
        res.deep_view() == manifest_decision(seq![ev@]),
        res is None ==> forall|rest: Seq<XmlEventView>| manifest_decision(seq![ev@] + rest) == manifest_decision(rest),
        res is Some ==> forall|rest: Seq<XmlEventView>| manifest_decision(seq![ev@] + rest) == manifest_decision(seq![ev@]),
{
    proof {
        assert forall|rest: Seq<XmlEventView>| (seq![ev@] + rest).drop_first() =~= rest by {}
        assert(seq![ev@].drop_first() =~= Seq::<XmlEventView>::empty());
        assert(seq![ev@][0] == ev@);
        assert(seq![ev@].len() == 1);
        assert forall|rest: Seq<XmlEventView>| (seq![ev@] + rest)[0] == ev@ by {}
        assert(manifest_decision(Seq::<XmlEventView>::empty()) is None);
    }
    match ev {
        XmlEvent::Failed => Some(None),
        XmlEvent::Eof => Some(None),
        XmlEvent::Other => None,
        XmlEvent::Start { name, attributes } => {
            if same_text(name.as_str(), "Application") {
                let (is_app, exe) = attributes_of(attributes);
                if is_app {
                    return Some(exe);
                }
            }
            None
        },
    }
}

/// The executable that a sequence of reader events names: the last
/// `Executable` attribute of the first `Application` start tag whose `Id` is
/// `App`, unless the reader failed or the document ended before such a tag.
pub fn app_executable_from_events(events: &Vec<XmlEvent>) -> (res: Option<String>)
    ensures
        res.deep_view() == manifest_executable(events@.map_values(|e: XmlEvent| e@)),
{
    let ghost evs = events@.map_values(|e: XmlEvent| e@);
    assert(evs.skip(0) =~= evs);
    let mut i: usize = 0;
    while i < events.len()
        invariant
            i <= events.len(),
            evs == events@.map_values(|e: XmlEvent| e@),
            manifest_decision(evs) == manifest_decision(evs.skip(i as int)),
        decreases events.len() - i,
    {
        assert(evs.skip(i as int) =~= seq![evs[i as int]] + evs.skip(i + 1));
        match event_decision(&events[i]) {
            Some(r) => {
                return r;
            },
            None => {},
        }
        i = i + 1;
    }
    assert(evs.skip(i as int) =~= Seq::<XmlEventView>::empty());
    None
}

proof fn lemma_decision_append(a: Seq<XmlEventView>, b: Seq<XmlEventView>)
    ensures
        manifest_decision(a) is Some ==> manifest_decision(a + b) == manifest_decision(a),
        manifest_decision(a) is None ==> manifest_decision(a + b) == manifest_decision(b),
    decreases a.len(),
{
    if a.len() > 0 {
        assert((a + b).drop_first() =~= a.drop_first() + b);
        assert((a + b)[0] == a[0]);
        lemma_decision_append(a.drop_first(), b);
    } else {
        assert(a + b =~= b);
    }
}

/// The executable that the manifest text `manifest` names: the last
/// `Executable` attribute of its first `Application` start tag whose `Id` is
/// `App`, unless the reader fails or the document ends before such a tag. It
/// reads events only up to that tag.
pub fn manifest_app_executable(manifest: &str) -> (res: Option<String>)
    ensures
        res.deep_view() == manifest_executable(xml_events(manifest@)),
{
    let mut stream = open_xml_stream(manifest);
    let ghost all = xml_events(manifest@);
    assert(all.take(0) =~= Seq::<XmlEventView>::empty());
    loop
        invariant
            stream.text() == manifest@,
            all == xml_events(manifest@),
            stream.read() < all.len(),
            manifest_decision(all.take(stream.read() as int)) is None,
        decreases all.len() - stream.read(),
    {
        let ghost before = stream.read() as int;
        let ev = next_xml_event(&mut stream);
        proof {
            assert(all.take(before + 1) =~= all.take(before) + seq![ev@]);
            lemma_decision_append(all.take(before), seq![ev@]);
            assert(seq![ev@] + Seq::<XmlEventView>::empty() =~= seq![ev@]);
            lemma_decision_append(seq![ev@], Seq::<XmlEventView>::empty());
        }
        match event_decision(&ev) {
            Some(r) => {
                proof {
                    assert(all =~= all.take(before + 1) + all.skip(before + 1));
                    lemma_decision_append(all.take(before + 1), all.skip(before + 1));
                }
                return r;
            },
            None => {},
        }
    }
}

/// `name` with every `/` turned into `\`, the Windows path separator.
pub open spec fn windows_separators(name: Seq<char>) -> Seq<char> {
    name.map_values(|c: char| if c == '/' { '\\' } else { c })
}

/// The manifest's relative executable path with Windows separators.
pub fn to_windows_separators(name: &str) -> (res: String)
    ensures
        res@ == windows_separators(name@),
{
    let cs = str_chars(name);
    let mut out = String::new();
    let mut i: usize = 0;
    while i < cs.len()
        invariant
            i <= cs.len(),
            cs@ == name@,
            out@ == windows_separators(name@).take(i as int),
        decreases cs.len() - i,
    {
        if cs[i] == '/' {
            out.append("\\");
            proof { reveal_strlit("\\"); }
        } else {
            out.append(name.substring_char(i, i + 1));
        }
        assert(windows_separators(name@).take(i + 1) =~= windows_separators(name@).take(i as int).push(windows_separators(name@)[i as int]));
        i = i + 1;
    }
    assert(windows_separators(name@).take(i as int) =~= windows_separators(name@));
    out
}

} // verus!
