//! Laws of the registry, proved of the model that every operation of
//! [`crate::state::AppState`] is proved to follow.

use vstd::prelude::*;
use crate::state::{Error, StateView};
use crate::text::{is_blank, lemma_blank_iff_trimmed_empty, lemma_trimmed_twice, trimmed};

verus! {

/// Every operation keeps a well-formed state well-formed: no URL twice, no
/// label twice in a link, and never a selection of a link that is gone.
pub proof fn law_operations_keep_wf(s: StateView, url: Seq<char>, raw: Seq<char>)
    requires
        s.wf(),
    ensures
        s.add_link(raw).0.wf(),
        s.add_label(url, raw).0.wf(),
        s.delete_link(url).0.wf(),
        s.select(Some(url)).0.wf(),
        s.select(None).0.wf(),
{
    law_add_link_keeps_wf(s, raw);
    law_add_label_keeps_wf(s, url, raw);
    law_delete_link_keeps_wf(s, url);
}

/// Adding a link keeps a well-formed state well-formed.
pub proof fn law_add_link_keeps_wf(s: StateView, raw: Seq<char>)
    requires
        s.wf(),
    ensures
        s.add_link(raw).0.wf(),
{
    let t = s.add_link(raw).0;
    if s.add_link(raw).1.is_ok() {
        assert(t.urls() =~= s.urls().push(trimmed(raw)));
        match t.selected {
            Some(u) => {
                let j = s.urls().index_of(u);
                assert(t.urls()[j] == u);
            },
            None => {},
        }
    }
}

/// Adding a label keeps a well-formed state well-formed.
pub proof fn law_add_label_keeps_wf(s: StateView, url: Seq<char>, raw: Seq<char>)
    requires
        s.wf(),
    ensures
        s.add_label(url, raw).0.wf(),
{
    let t = s.add_label(url, raw).0;
    if s.add_label(url, raw).1.is_ok() {
        assert(t.urls() =~= s.urls());
        let at = s.position(url);
        assert(s.links[at].wf());
        assert forall|i: int| 0 <= i < t.links.len() implies (#[trigger] t.links[i]).wf() by {
            if i != at {
                assert(s.links[i].wf());
            }
        }
    }
}

/// Deleting a link keeps a well-formed state well-formed.
pub proof fn law_delete_link_keeps_wf(s: StateView, url: Seq<char>)
    requires
        s.wf(),
    ensures
        s.delete_link(url).0.wf(),
{
    let t = s.delete_link(url).0;
    if s.delete_link(url).1.is_ok() {
        let at = s.position(url);
        assert(t.urls() =~= s.urls().remove(at));
        s.urls().remove_ensures(at);
        assert forall|i: int| 0 <= i < t.links.len() implies (#[trigger] t.links[i]).wf() by {
            if i < at {
                assert(s.links[i].wf());
            } else {
                assert(s.links[i + 1].wf());
            }
        }
        match t.selected {
            Some(u) => {
                let j = s.urls().index_of(u);
                assert(s.urls()[j] == u);
                if j < at {
                    assert(t.urls()[j] == u);
                } else {
                    assert(t.urls()[j - 1] == u);
                }
            },
            None => {},
        }
    }
}

/// An operation that fails changes nothing.
pub proof fn law_failure_changes_nothing(
    s: StateView,
    url: Seq<char>,
    raw: Seq<char>,
    choice: Option<Seq<char>>,
)
    ensures
        s.add_link(raw).1.is_err() ==> s.add_link(raw).0 == s,
        s.add_label(url, raw).1.is_err() ==> s.add_label(url, raw).0 == s,
        s.delete_link(url).1.is_err() ==> s.delete_link(url).0 == s,
        s.select(choice).1.is_err() ==> s.select(choice).0 == s,
{
}

/// Adding a URL that was just added, however it is padded with white space,
/// fails with [`Error::AlreadyExists`] and changes nothing: the registry
/// keeps its size.
pub proof fn law_add_link_twice(s: StateView, first: Seq<char>, second: Seq<char>)
    requires
        trimmed(first) == trimmed(second),
        trimmed(first).len() > 0,
    ensures
        ({
            let once = s.add_link(first).0;
            &&& once.add_link(second) == (once, Err::<(), Error>(Error::AlreadyExists))
            &&& once.add_link(second).0.links.len() == once.links.len()
        }),
{
    let url = trimmed(first);
    let once = s.add_link(first).0;
    if !s.contains(url) {
        assert(once.urls()[s.links.len() as int] == url);
    }
}

/// Adding a link from text that is all white space fails with
/// [`Error::Empty`] and changes nothing.
pub proof fn law_add_blank_link(s: StateView, raw: Seq<char>)
    requires
        is_blank(raw),
    ensures
        s.add_link(raw) == (s, Err::<(), Error>(Error::Empty)),
{
    lemma_blank_iff_trimmed_empty(raw);
}

/// A link that was just added is in the registry, without labels, and the
/// registry has one link more. Its URL is not empty and is trimmed: trimming
/// it again changes nothing.
pub proof fn law_added_link_is_found(s: StateView, raw: Seq<char>)
    requires
        s.wf(),
        s.add_link(raw).1.is_ok(),
    ensures
        ({
            let t = s.add_link(raw).0;
            &&& t.links.len() == s.links.len() + 1
            &&& t.get(trimmed(raw)).is_some()
            &&& t.get(trimmed(raw)).unwrap().url == trimmed(raw)
            &&& t.get(trimmed(raw)).unwrap().labels.len() == 0
            &&& trimmed(raw).len() > 0
            &&& trimmed(trimmed(raw)) == trimmed(raw)
        }),
{
    let t = s.add_link(raw).0;
    law_add_link_keeps_wf(s, raw);
    t.lemma_position(s.links.len() as int);
    lemma_trimmed_twice(raw);
}

/// Adding to a link a label that was just added to it, however it is padded
/// with white space, fails with [`Error::Duplicate`] and changes nothing: the
/// link keeps its labels.
pub proof fn law_add_label_twice(
    s: StateView,
    url: Seq<char>,
    first: Seq<char>,
    second: Seq<char>,
)
    requires
        s.contains(url),
        trimmed(first) == trimmed(second),
        trimmed(first).len() > 0,
    ensures
        ({
            let once = s.add_label(url, first).0;
            &&& once.add_label(url, second) == (once, Err::<(), Error>(Error::Duplicate))
            &&& once.get(url).unwrap().labels == once.add_label(url, second).0.get(
                url,
            ).unwrap().labels
        }),
{
    let label = trimmed(first);
    let once = s.add_label(url, first).0;
    let at = s.position(url);
    assert(once.urls() =~= s.urls());
    if s.add_label(url, first).1.is_ok() {
        let labels = s.links[at].labels;
        assert(once.links[at].labels == labels.push(label));
        assert(labels.push(label)[labels.len() as int] == label);
    }
}

/// A label that was just added is the last label of its link, and the link
/// has one label more. The label is not empty and is trimmed: trimming it
/// again changes nothing.
pub proof fn law_added_label_is_last(s: StateView, url: Seq<char>, raw: Seq<char>)
    requires
        s.wf(),
        s.add_label(url, raw).1.is_ok(),
    ensures
        ({
            let before = s.get(url).unwrap().labels;
            let after = s.add_label(url, raw).0.get(url).unwrap().labels;
            &&& after == before.push(trimmed(raw))
            &&& trimmed(raw).len() > 0
            &&& trimmed(trimmed(raw)) == trimmed(raw)
        }),
{
    let t = s.add_label(url, raw).0;
    assert(t.urls() =~= s.urls());
    lemma_trimmed_twice(raw);
}

/// After a link is deleted the registry does not have it, and if it was
/// selected nothing is selected; every other selection stays.
pub proof fn law_deleted_link_is_gone(s: StateView, url: Seq<char>)
    requires
        s.wf(),
        s.contains(url),
    ensures
        ({
            let (t, r) = s.delete_link(url);
            &&& r.is_ok()
            &&& t.get(url).is_none()
            &&& t.links.len() == s.links.len() - 1
            &&& s.selected == Some(url) ==> t.selected.is_none()
            &&& s.selected != Some(url) ==> t.selected == s.selected
        }),
{
    let t = s.delete_link(url).0;
    let at = s.position(url);
    assert(t.urls() =~= s.urls().remove(at));
    if t.contains(url) {
        let j = choose|j: int| 0 <= j < t.urls().len() && t.urls()[j] == url;
        if j < at {
            assert(s.urls()[j] == url);
        } else {
            assert(s.urls()[j + 1] == url);
        }
    }
}

/// Selecting a URL that the registry does not have fails with
/// [`Error::NotFound`] and keeps the selection.
pub proof fn law_select_missing(s: StateView, url: Seq<char>)
    requires
        !s.contains(url),
    ensures
        s.select(Some(url)) == (s, Err::<(), Error>(Error::NotFound)),
        s.select(Some(url)).0.selected == s.selected,
{
}

/// Seen as a mapping from URL to labels, the registry after a link was added
/// is the registry before with the new URL mapped to no labels.
pub proof fn law_add_link_inserts(s: StateView, raw: Seq<char>)
    requires
        s.wf(),
        s.add_link(raw).1.is_ok(),
    ensures
        s.add_link(raw).0.registry() == s.registry().insert(trimmed(raw), Seq::empty()),
{
    let t = s.add_link(raw).0;
    let url = trimmed(raw);
    let n = s.links.len() as int;
    let expected = s.registry().insert(url, Seq::empty());
    law_add_link_keeps_wf(s, raw);
    t.lemma_position(n);
    assert forall|u: Seq<char>|
        t.contains(u) == expected.dom().contains(u) && (t.contains(u) ==> t.get(u).unwrap().labels
            == expected[u]) by {
        s.lemma_lookup(u);
        t.lemma_lookup(u);
        if u != url {
            if s.contains(u) {
                let i = s.position(u);
                assert(t.links[i] == s.links[i]);
                s.lemma_position(i);
                t.lemma_position(i);
            }
            if t.contains(u) {
                let i = t.position(u);
                assert(t.links[i] == s.links[i]);
                s.lemma_position(i);
                t.lemma_position(i);
            }
        }
    }
    assert(t.registry() =~= expected);
}

/// Seen as a mapping from URL to labels, the registry after a label was
/// added to a link is the registry before with the link's URL mapped to its
/// old labels followed by the new one.
pub proof fn law_add_label_appends(s: StateView, url: Seq<char>, raw: Seq<char>)
    requires
        s.wf(),
        s.add_label(url, raw).1.is_ok(),
    ensures
        s.add_label(url, raw).0.registry() == s.registry().insert(
            url,
            s.registry()[url].push(trimmed(raw)),
        ),
{
    let t = s.add_label(url, raw).0;
    let at = s.position(url);
    let expected = s.registry().insert(url, s.registry()[url].push(trimmed(raw)));
    assert(t.urls() =~= s.urls());
    assert forall|u: Seq<char>|
        t.contains(u) == expected.dom().contains(u) && (t.contains(u) ==> t.get(u).unwrap().labels
            == expected[u]) by {
        s.lemma_lookup(u);
        if u != url && s.contains(u) {
            let i = s.position(u);
            assert(i != at);
            assert(t.links[i] == s.links[i]);
        }
    }
    assert(t.registry() =~= expected);
}

/// Seen as a mapping from URL to labels, the registry after a link was
/// deleted is the registry before without that URL.
pub proof fn law_delete_link_removes(s: StateView, url: Seq<char>)
    requires
        s.wf(),
        s.delete_link(url).1.is_ok(),
    ensures
        s.delete_link(url).0.registry() == s.registry().remove(url),
{
    let t = s.delete_link(url).0;
    let at = s.position(url);
    let expected = s.registry().remove(url);
    law_delete_link_keeps_wf(s, url);
    law_deleted_link_is_gone(s, url);
    s.lemma_lookup(url);
    assert forall|u: Seq<char>|
        t.contains(u) == expected.dom().contains(u) && (t.contains(u) ==> t.get(u).unwrap().labels
            == expected[u]) by {
        s.lemma_lookup(u);
        t.lemma_lookup(u);
        if u != url {
            if s.contains(u) {
                let i = s.position(u);
                let j = if i < at {
                    i
                } else {
                    i - 1
                };
                assert(t.links[j] == s.links[i]);
                s.lemma_position(i);
                t.lemma_position(j);
            }
            if t.contains(u) {
                let j = t.position(u);
                let i = if j < at {
                    j
                } else {
                    j + 1
                };
                assert(t.links[j] == s.links[i]);
                s.lemma_position(i);
                t.lemma_position(j);
            }
        }
    }
    assert(t.registry() =~= expected);
}

/// Selecting changes nothing but the selection, and a selection that
/// succeeds is the one asked for.
pub proof fn law_select_sets_selection(s: StateView, choice: Option<Seq<char>>)
    ensures
        ({
            let (t, r) = s.select(choice);
            &&& t.links == s.links
            &&& t.link_input == s.link_input
            &&& t.label_input == s.label_input
            &&& r.is_ok() ==> t.selected == choice
            &&& r.is_ok() <==> (choice.is_none() || s.contains(choice.unwrap()))
        }),
{
}

} // verus!
