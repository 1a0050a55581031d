//! A bookmarked URL with its labels.

use vstd::prelude::*;

verus! {

/// What a [`Link`] is: its URL and its labels, in the order they were added.
pub struct LinkView {
    pub url: Seq<char>,
    pub labels: Seq<Seq<char>>,
}

impl LinkView {
    /// No label occurs twice.
    pub open spec fn wf(self) -> bool {
        self.labels.no_duplicates()
    }

    /// The link after `label` is added: appended, unless it is already there.
    pub open spec fn add_label(self, label: Seq<char>) -> LinkView {
        if self.labels.contains(label) {
            self
        } else {
            LinkView { url: self.url, labels: self.labels.push(label) }
        }
    }
}

/// A bookmarked URL with its labels.
#[derive(Debug, Default)]
pub struct Link {
    pub url: String,
    pub labels: Vec<String>,
}

impl View for Link {
    type V = LinkView;

    open spec fn view(&self) -> LinkView {
        LinkView { url: self.url@, labels: self.labels.deep_view() }
    }
}

/// Whether `label` is one of `labels`.
pub fn has_label(labels: &Vec<String>, label: &String) -> (r: bool)
    ensures
        r == labels.deep_view().contains(label@),
{
    let mut i: usize = 0;
    while i < labels.len()
        invariant
            i <= labels.len(),
            forall|j: int| 0 <= j < i ==> labels.deep_view()[j] != label@,
        decreases labels.len() - i,
    {
        if labels[i] == *label {
            assert(labels.deep_view()[i as int] == label@);
            return true;
        }
        i += 1;
    }
    false
}

/// Whether no text occurs twice in `labels`.
pub fn all_distinct(labels: &Vec<String>) -> (r: bool)
    ensures
        r == labels.deep_view().no_duplicates(),
{
    let ghost texts = labels.deep_view();
    let mut i: usize = 0;
    while i < labels.len()
        invariant
            i <= labels.len(),
            texts == labels.deep_view(),
            forall|a: int, b: int| 0 <= a < b < i ==> texts[a] != texts[b],
        decreases labels.len() - i,
    {
        let mut j: usize = 0;
        while j < i
            invariant
                j <= i < labels.len(),
                texts == labels.deep_view(),
                forall|a: int| 0 <= a < j ==> texts[a] != texts[i as int],
            decreases i - j,
        {
            if labels[j] == labels[i] {
                assert(texts[j as int] == texts[i as int]);
                return false;
            }
            j += 1;
        }
        i += 1;
    }
    true
}

impl Link {
    /// Whether no label occurs twice.
    pub fn is_wf(&self) -> (r: bool)
        ensures
            r == self@.wf(),
    {
        all_distinct(&self.labels)
    }

    /// A link to `url` without labels.
    pub fn new(url: String) -> (r: Self)
        ensures
            r@ == (LinkView { url: url@, labels: Seq::empty() }),
            r@.wf(),
    {
        let r = Self { url, labels: Vec::new() };
        assert(r.labels.deep_view() =~= Seq::empty());
        r
    }

    /// Appends `label` to the labels, unless it is already one of them.
    pub fn add_label(&mut self, label: String)
        ensures
            final(self)@ == old(self)@.add_label(label@),
            old(self)@.wf() ==> final(self)@.wf(),
    {
        if !has_label(&self.labels, &label) {
            let ghost before = self.labels.deep_view();
            self.labels.push(label);
            assert(self.labels.deep_view() =~= before.push(label@));
        }
    }
}

} // verus!
