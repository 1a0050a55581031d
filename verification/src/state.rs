//! The registry of links, the selection and the two input buffers.

use vstd::prelude::*;
use crate::link::{has_label, Link, LinkView};
use crate::text::trimmed;

verus! {

/// Why an operation on the registry left it unchanged.
#[derive(Debug, Clone, Copy, PartialEq, Eq, Structural)]
pub enum Error {
    /// The text is empty once trimmed.
    Empty,
    /// The URL is already in the registry.
    AlreadyExists,
    /// The link already has the label.
    Duplicate,
    /// The URL is not in the registry.
    NotFound,
}

/// What an [`AppState`] is: the links in the order they were added, the URL
/// that is selected, and the text of the two input buffers.
pub struct StateView {
    pub link_input: Seq<char>,
    pub label_input: Seq<char>,
    pub links: Seq<LinkView>,
    pub selected: Option<Seq<char>>,
}

impl StateView {
    /// The state that holds nothing.
    pub open spec fn empty() -> StateView {
        StateView {
            link_input: Seq::empty(),
            label_input: Seq::empty(),
            links: Seq::empty(),
            selected: None,
        }
    }

    /// The URLs of the links, in the order they were added.
    pub open spec fn urls(self) -> Seq<Seq<char>> {
        Seq::new(self.links.len(), |i: int| self.links[i].url)
    }

    /// Whether `url` is the URL of a link.
    pub open spec fn contains(self, url: Seq<char>) -> bool {
        self.urls().contains(url)
    }

    /// Where the link with `url` stands, if there is one.
    pub open spec fn position(self, url: Seq<char>) -> int {
        self.urls().index_of(url)
    }

    /// The link with `url`, if there is one.
    pub open spec fn get(self, url: Seq<char>) -> Option<LinkView> {
        if self.contains(url) {
            Some(self.links[self.position(url)])
        } else {
            None
        }
    }

    /// The registry as a mapping from each URL to the labels of its link.
    pub open spec fn registry(self) -> Map<Seq<char>, Seq<Seq<char>>> {
        Map::new(|url: Seq<char>| self.contains(url), |url: Seq<char>| self.get(url).unwrap().labels)
    }

    /// No URL occurs twice, no link has a label twice, and what is selected
    /// is the URL of a link.
    pub open spec fn wf(self) -> bool {
        &&& self.urls().no_duplicates()
        &&& forall|i: int| 0 <= i < self.links.len() ==> (#[trigger] self.links[i]).wf()
        &&& match self.selected {
            Some(url) => self.contains(url),
            None => true,
        }
    }

    /// Adding the link that `raw` names: the state afterwards, and the outcome.
    /// The URL input is emptied only when the link is added.
    pub open spec fn add_link(self, raw: Seq<char>) -> (StateView, Result<(), Error>) {
        let url = trimmed(raw);
        if url.len() == 0 {
            (self, Err(Error::Empty))
        } else if self.contains(url) {
            (self, Err(Error::AlreadyExists))
        } else {
            (
                StateView {
                    link_input: Seq::empty(),
                    links: self.links.push(LinkView { url, labels: Seq::empty() }),
                    ..self
                },
                Ok(()),
            )
        }
    }

    /// Adding the label that `raw` names to the link with `url`: the state
    /// afterwards, and the outcome. The label input is emptied only when the
    /// label is added.
    pub open spec fn add_label(self, url: Seq<char>, raw: Seq<char>) -> (
        StateView,
        Result<(), Error>,
    ) {
        let label = trimmed(raw);
        let at = self.position(url);
        if !self.contains(url) {
            (self, Err(Error::NotFound))
        } else if label.len() == 0 {
            (self, Err(Error::Empty))
        } else if self.links[at].labels.contains(label) {
            (self, Err(Error::Duplicate))
        } else {
            (
                StateView {
                    label_input: Seq::empty(),
                    links: self.links.update(at, self.links[at].add_label(label)),
                    ..self
                },
                Ok(()),
            )
        }
    }

    /// Deleting the link with `url`: the state afterwards, and the outcome.
    /// A selection of that link ends with it.
    pub open spec fn delete_link(self, url: Seq<char>) -> (StateView, Result<(), Error>) {
        if !self.contains(url) {
            (self, Err(Error::NotFound))
        } else {
            (
                StateView {
                    links: self.links.remove(self.position(url)),
                    selected: if self.selected == Some(url) {
                        None
                    } else {
                        self.selected
                    },
                    ..self
                },
                Ok(()),
            )
        }
    }

    /// Selecting `url`, or nothing: the state afterwards, and the outcome.
    pub open spec fn select(self, url: Option<Seq<char>>) -> (StateView, Result<(), Error>) {
        match url {
            None => (StateView { selected: None, ..self }, Ok(())),
            Some(u) => if self.contains(u) {
                (StateView { selected: Some(u), ..self }, Ok(()))
            } else {
                (self, Err(Error::NotFound))
            },
        }
    }

    /// In a well-formed state, the link at `i` is the one its URL is found at.
    pub proof fn lemma_position(self, i: int)
        requires
            self.urls().no_duplicates(),
            0 <= i < self.links.len(),
        ensures
            self.contains(self.links[i].url),
            self.position(self.links[i].url) == i,
            self.get(self.links[i].url) == Some(self.links[i]),
    {
        let url = self.links[i].url;
        assert(self.urls()[i] == url);
        let j = self.urls().index_of(url);
        assert(0 <= j < self.urls().len() && self.urls()[j] == url);
    }

    /// A URL of the registry is found where a link has it; any other URL is
    /// the URL of no link.
    pub proof fn lemma_lookup(self, url: Seq<char>)
        ensures
            self.contains(url) ==> 0 <= self.position(url) < self.links.len()
                && self.links[self.position(url)].url == url,
            !self.contains(url) ==> forall|i: int|
                0 <= i < self.links.len() ==> (#[trigger] self.links[i]).url != url,
    {
        if self.contains(url) {
            let j = self.urls().index_of(url);
            assert(0 <= j < self.urls().len() && self.urls()[j] == url);
        } else {
            assert forall|i: int| 0 <= i < self.links.len() implies (#[trigger] self.links[i]).url
                != url by {
                assert(self.urls()[i] == self.links[i].url);
            }
        }
    }
}

/// The views of `links`, in order.
pub open spec fn link_views(links: Seq<Link>) -> Seq<LinkView> {
    Seq::new(links.len(), |i: int| links[i]@)
}

/// The text of `s`, if there is one.
pub open spec fn option_text(s: Option<String>) -> Option<Seq<char>> {
    match s {
        Some(t) => Some(t@),
        None => None,
    }
}

/// Where in `links` the link with `url` stands, if there is one.
fn position(links: &Vec<Link>, url: &String) -> (r: Option<usize>)
    ensures
        match r {
            Some(i) => i < links.len() && links[i as int].url@ == url@,
            None => forall|j: int| 0 <= j < links.len() ==> links[j].url@ != url@,
        },
{
    let mut i: usize = 0;
    while i < links.len()
        invariant
            i <= links.len(),
            forall|j: int| 0 <= j < i ==> links[j].url@ != url@,
        decreases links.len() - i,
    {
        if links[i].url == *url {
            return Some(i);
        }
        i += 1;
    }
    None
}

/// Whether no URL occurs twice in `links` and no label twice in one of them.
fn links_wf(links: &Vec<Link>) -> (r: bool)
    ensures
        r == {
            &&& Seq::new(links.len() as nat, |i: int| links[i].url@).no_duplicates()
            &&& forall|i: int| 0 <= i < links.len() ==> (#[trigger] links[i]@).wf()
        },
{
    let ghost urls = Seq::new(links.len() as nat, |i: int| links[i].url@);
    let mut i: usize = 0;
    while i < links.len()
        invariant
            i <= links.len(),
            urls == Seq::new(links.len() as nat, |i: int| links[i].url@),
            forall|a: int, b: int| 0 <= a < b < i ==> urls[a] != urls[b],
            forall|a: int| 0 <= a < i ==> (#[trigger] links[a]@).wf(),
        decreases links.len() - i,
    {
        if !links[i].is_wf() {
            return false;
        }
        let mut j: usize = 0;
        while j < i
            invariant
                j <= i < links.len(),
                urls == Seq::new(links.len() as nat, |i: int| links[i].url@),
                forall|a: int| 0 <= a < j ==> urls[a] != urls[i as int],
            decreases i - j,
        {
            if links[j].url == links[i].url {
                assert(urls[j as int] == urls[i as int]);
                return false;
            }
            j += 1;
        }
        i += 1;
    }
    true
}

/// The whole state of the bookmark manager.
#[derive(Debug)]
pub struct AppState {
    link_input: String,
    label_input: String,
    links: Vec<Link>,
    selected: Option<String>,
}

impl View for AppState {
    type V = StateView;

    closed spec fn view(&self) -> StateView {
        StateView {
            link_input: self.link_input@,
            label_input: self.label_input@,
            links: link_views(self.links@),
            selected: option_text(self.selected),
        }
    }
}

impl AppState {
    /// Whether the state keeps its rules: see [`StateView::wf`].
    pub open spec fn wf(&self) -> bool {
        self@.wf()
    }

    /// What `position` found, said of the view.
    proof fn lemma_found(&self, url: Seq<char>, found: Option<usize>)
        requires
            self.wf(),
            match found {
                Some(i) => i < self.links.len() && self.links[i as int].url@ == url,
                None => forall|j: int| 0 <= j < self.links.len() ==> self.links[j].url@ != url,
            },
        ensures
            match found {
                Some(i) => self@.contains(url) && self@.position(url) == i,
                None => !self@.contains(url),
            },
    {
        match found {
            Some(i) => {
                self@.lemma_position(i as int);
            },
            None => {
                if self@.contains(url) {
                    let j = choose|j: int| 0 <= j < self@.urls().len() && self@.urls()[j] == url;
                    assert(self.links[j].url@ == url);
                }
            },
        }
    }

    /// A state without links, with nothing selected and empty inputs.
    pub fn new() -> (r: Self)
        ensures
            r@ == StateView::empty(),
            r.wf(),
    {
        let r = Self {
            link_input: String::new(),
            label_input: String::new(),
            links: Vec::new(),
            selected: None,
        };
        assert(r@.links =~= Seq::empty());
        r
    }

    /// The state made of these values, if they keep the rules of
    /// [`StateView::wf`]; `None` if they do not.
    pub fn from_parts(
        link_input: String,
        label_input: String,
        links: Vec<Link>,
        selected: Option<String>,
    ) -> (r: Option<Self>)
        ensures
            ({
                let parts = StateView {
                    link_input: link_input@,
                    label_input: label_input@,
                    links: link_views(links@),
                    selected: option_text(selected),
                };
                match r {
                    Some(state) => parts.wf() && state@ == parts,
                    None => !parts.wf(),
                }
            }),
    {
        let ghost parts = StateView {
            link_input: link_input@,
            label_input: label_input@,
            links: link_views(links@),
            selected: option_text(selected),
        };
        assert(parts.urls() =~= Seq::new(links.len() as nat, |i: int| links[i].url@));
        if !links_wf(&links) {
            proof {
                if parts.wf() {
                    assert forall|i: int| 0 <= i < links.len() implies (#[trigger] links[i]@).wf() by {
                        assert(parts.links[i].wf());
                    }
                }
            }
            return None;
        }
        assert forall|i: int| 0 <= i < parts.links.len() implies (#[trigger] parts.links[i]).wf() by {
            assert(links[i]@.wf());
        }
        let state = Self { link_input, label_input, links, selected };
        match &state.selected {
            Some(url) => {
                let found = position(&state.links, url);
                if found.is_none() {
                    proof {
                        if parts.contains(url@) {
                            let j = choose|j: int|
                                0 <= j < parts.urls().len() && parts.urls()[j] == url@;
                            assert(state.links[j].url@ == url@);
                        }
                    }
                    return None;
                }
                assert(parts.urls()[found.unwrap() as int] == url@);
            },
            None => {},
        }
        Some(state)
    }

    /// The values the state is made of: the URL input, the label input, the
    /// links in the order they were added, and the selected URL.
    pub fn into_parts(self) -> (r: (String, String, Vec<Link>, Option<String>))
        ensures
            self@ == (StateView {
                link_input: r.0@,
                label_input: r.1@,
                links: link_views(r.2@),
                selected: option_text(r.3),
            }),
    {
        (self.link_input, self.label_input, self.links, self.selected)
    }

    /// Adds a link to what is left of `raw` when it is trimmed.
    ///
    /// Fails with [`Error::Empty`] when nothing is left, and with
    /// [`Error::AlreadyExists`] when the registry has that URL. On success
    /// the new link has no labels and the URL input is emptied.
    pub fn add_link(&mut self, raw: &str) -> (r: Result<(), Error>)
        requires
            old(self).wf(),
        ensures
            final(self).wf(),
            final(self)@ == old(self)@.add_link(raw@).0,
            r == old(self)@.add_link(raw@).1,
    {
        let url = raw.trim().to_owned();
        if url.as_str().is_empty() {
            return Err(Error::Empty);
        }
        let found = position(&self.links, &url);
        proof {
            self.lemma_found(url@, found);
        }
        if found.is_some() {
            return Err(Error::AlreadyExists);
        }
        let ghost before = self@;
        self.links.push(Link::new(url));
        self.link_input = String::new();
        proof {
            let after = before.add_link(raw@).0;
            assert(self@.links =~= after.links);
            assert(self@.urls() =~= before.urls().push(trimmed(raw@)));
            assert(self@.urls().no_duplicates());
            match self@.selected {
                Some(u) => {
                    let j = before.urls().index_of(u);
                    assert(self@.urls()[j] == u);
                },
                None => {},
            }
        }
        Ok(())
    }

    /// Adds what is left of `raw` when it is trimmed as a label of the link
    /// with `url`.
    ///
    /// Fails with [`Error::NotFound`] when the registry has no such link,
    /// with [`Error::Empty`] when nothing is left of `raw`, and with
    /// [`Error::Duplicate`] when the link has that label. On success the
    /// label is the link's last and the label input is emptied.
    pub fn add_label(&mut self, url: &str, raw: &str) -> (r: Result<(), Error>)
        requires
            old(self).wf(),
        ensures
            final(self).wf(),
            final(self)@ == old(self)@.add_label(url@, raw@).0,
            r == old(self)@.add_label(url@, raw@).1,
    {
        let key = url.to_owned();
        let found = position(&self.links, &key);
        proof {
            self.lemma_found(url@, found);
        }
        let at = match found {
            Some(at) => at,
            None => {
                return Err(Error::NotFound);
            },
        };
        let label = raw.trim().to_owned();
        if label.as_str().is_empty() {
            return Err(Error::Empty);
        }
        if has_label(&self.links[at].labels, &label) {
            return Err(Error::Duplicate);
        }
        let ghost before = self@;
        self.links[at].add_label(label);
        self.label_input = String::new();
        proof {
            let after = before.add_label(url@, raw@).0;
            assert(self@.links =~= after.links);
            assert(self@.urls() =~= before.urls());
        }
        Ok(())
    }

    /// Deletes the link with `url`, and the selection with it if that link
    /// was selected.
    ///
    /// Fails with [`Error::NotFound`] when the registry has no such link.
    pub fn delete_link(&mut self, url: &str) -> (r: Result<(), Error>)
        requires
            old(self).wf(),
        ensures
            final(self).wf(),
            final(self)@ == old(self)@.delete_link(url@).0,
            r == old(self)@.delete_link(url@).1,
    {
        let key = url.to_owned();
        let found = position(&self.links, &key);
        proof {
            self.lemma_found(url@, found);
        }
        let at = match found {
            Some(at) => at,
            None => {
                return Err(Error::NotFound);
            },
        };
        let was_selected = match &self.selected {
            Some(s) => *s == key,
            None => false,
        };
        let ghost before = self@;
        self.links.remove(at);
        if was_selected {
            self.selected = None;
        }
        proof {
            let after = before.delete_link(url@).0;
            assert(self@.links =~= after.links);
            assert(self@.urls() =~= before.urls().remove(at as int));
            before.urls().remove_ensures(at as int);
            assert(self@.urls().no_duplicates());
            match self@.selected {
                Some(u) => {
                    let j = before.urls().index_of(u);
                    assert(before.urls()[j] == u);
                    assert(j != at);
                    if j < at {
                        assert(self@.urls()[j] == u);
                    } else {
                        assert(self@.urls()[j - 1] == u);
                    }
                },
                None => {},
            }
        }
        Ok(())
    }

    /// Selects the link with `url`, or nothing.
    ///
    /// Fails with [`Error::NotFound`], and keeps the selection, when the
    /// registry has no link with `url`. Selecting nothing always succeeds.
    pub fn select(&mut self, url: Option<String>) -> (r: Result<(), Error>)
        requires
            old(self).wf(),
        ensures
            final(self).wf(),
            final(self)@ == old(self)@.select(option_text(url)).0,
            r == old(self)@.select(option_text(url)).1,
    {
        match url {
            None => {
                self.selected = None;
                Ok(())
            },
            Some(u) => {
                let found = position(&self.links, &u);
                proof {
                    self.lemma_found(u@, found);
                }
                if found.is_some() {
                    self.selected = Some(u);
                    Ok(())
                } else {
                    Err(Error::NotFound)
                }
            },
        }
    }

    /// The link with `url`, if the registry has one.
    pub fn get(&self, url: &str) -> (r: Option<&Link>)
        requires
            self.wf(),
        ensures
            match r {
                Some(link) => self@.get(url@) == Some(link@),
                None => self@.get(url@).is_none(),
            },
    {
        let key = url.to_owned();
        let found = position(&self.links, &key);
        proof {
            self.lemma_found(url@, found);
        }
        match found {
            Some(at) => Some(&self.links[at]),
            None => None,
        }
    }

    /// The URL that is selected, if one is.
    pub fn selected(&self) -> (r: Option<&String>)
        ensures
            match r {
                Some(url) => self@.selected == Some(url@),
                None => self@.selected.is_none(),
            },
    {
        match &self.selected {
            Some(url) => Some(url),
            None => None,
        }
    }

    /// The link that is selected, if one is.
    pub fn selected_link(&self) -> (r: Option<&Link>)
        requires
            self.wf(),
        ensures
            match r {
                Some(link) => self@.selected == Some(link@.url) && self@.get(link@.url) == Some(
                    link@,
                ),
                None => self@.selected.is_none(),
            },
    {
        match &self.selected {
            Some(url) => {
                let found = position(&self.links, url);
                proof {
                    self.lemma_found(url@, found);
                }
                match found {
                    Some(at) => Some(&self.links[at]),
                    None => None,
                }
            },
            None => None,
        }
    }

    /// The links, in the order they were added.
    pub fn links(&self) -> (r: &Vec<Link>)
        ensures
            link_views(r@) == self@.links,
    {
        &self.links
    }

    /// How many links the registry has.
    pub fn len(&self) -> (r: usize)
        ensures
            r == self@.links.len(),
    {
        self.links.len()
    }

    /// Whether the registry has no link.
    pub fn is_empty(&self) -> (r: bool)
        ensures
            r == (self@.links.len() == 0),
    {
        self.links.len() == 0
    }

    /// The text of the URL input.
    pub fn link_input(&self) -> (r: &String)
        ensures
            r@ == self@.link_input,
    {
        &self.link_input
    }

    /// The text of the label input.
    pub fn label_input(&self) -> (r: &String)
        ensures
            r@ == self@.label_input,
    {
        &self.label_input
    }

    /// Replaces the text of the URL input.
    pub fn set_link_input(&mut self, text: String)
        ensures
            final(self)@ == (StateView { link_input: text@, ..old(self)@ }),
    {
        self.link_input = text;
    }

    /// Replaces the text of the label input.
    pub fn set_label_input(&mut self, text: String)
        ensures
            final(self)@ == (StateView { label_input: text@, ..old(self)@ }),
    {
        self.label_input = text;
    }
}

impl Default for AppState {
    fn default() -> (r: Self)
        ensures
            r@ == StateView::empty(),
            r.wf(),
    {
        AppState::new()
    }
}

} // verus!
