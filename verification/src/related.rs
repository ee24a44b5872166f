//! The pods that a selector of labels picks.

use crate::util::texts;
use vstd::prelude::*;

verus! {

/// A label: a key and its value.
pub struct Label {
    pub key: String,
    pub value: String,
}

/// A pod, as far as labels are concerned.
pub struct Pod {
    pub name: String,
    /// The labels of the pod, if it has any set.
    pub labels: Option<Vec<Label>>,
}

/// A list of pods.
pub struct List {
    pub items: Vec<Pod>,
}

/// The mathematical value of labels: pairs of key and value.
pub type Pairs = Seq<(Seq<char>, Seq<char>)>;

/// The mathematical value of a `Pod`.
pub ghost struct PodModel {
    pub name: Seq<char>,
    pub labels: Option<Pairs>,
}

/// The pairs that `labels` hold.
pub open spec fn pairs(labels: Seq<Label>) -> Pairs {
    Seq::new(labels.len(), |i: int| (labels[i].key@, labels[i].value@))
}

impl View for Pod {
    type V = PodModel;

    open spec fn view(&self) -> PodModel {
        PodModel {
            name: self.name@,
            labels: match self.labels {
                Some(labels) => Some(pairs(labels@)),
                None => None,
            },
        }
    }
}

impl View for List {
    type V = Seq<PodModel>;

    open spec fn view(&self) -> Seq<PodModel> {
        Seq::new(self.items@.len(), |i: int| self.items@[i]@)
    }
}

/// Whether `labels` hold every pair of `selector`.
pub open spec fn holds_all(labels: Pairs, selector: Pairs) -> bool {
    forall|i: int| 0 <= i < selector.len() ==> labels.contains(#[trigger] selector[i])
}

/// Whether `selector` picks `pod`: the pod has labels, and they hold every
/// pair of the selector.
pub open spec fn picks(selector: Pairs, pod: PodModel) -> bool {
    pod.labels is Some && holds_all(pod.labels->0, selector)
}

/// Those of the first `upto` of `pods` that `selector` picks, in order.
pub open spec fn picked(pods: Seq<PodModel>, selector: Pairs, upto: int) -> Seq<PodModel>
    decreases upto,
{
    if upto <= 0 {
        seq![]
    } else if picks(selector, pods[upto - 1]) {
        picked(pods, selector, upto - 1).push(pods[upto - 1])
    } else {
        picked(pods, selector, upto - 1)
    }
}

/// The names of `pods`.
pub open spec fn names(pods: Seq<PodModel>) -> Seq<Seq<char>> {
    Seq::new(pods.len(), |i: int| pods[i].name)
}

/// Something of which a selector of labels picks a part.
pub trait Filter: Sized {
    /// What `selector` picks of `self`, if it picks anything.
    spec fn selection(&self, selector: Pairs) -> Option<Seq<PodModel>>;

    /// The value of a selection.
    spec fn pods(&self) -> Seq<PodModel>;

    fn filter_by_labels(&self, selector: &Vec<Label>) -> (r: Option<Self>)
        ensures
            r is Some == self.selection(pairs(selector@)) is Some,
            r is Some ==> r->0.pods() == self.selection(pairs(selector@))->0,
    ;
}

fn has_pair(labels: &Vec<Label>, wanted: &Label) -> (r: bool)
    ensures
        r == pairs(labels@).contains((wanted.key@, wanted.value@)),
{
    let mut i: usize = 0;
    while i < labels.len()
        invariant
            i <= labels.len(),
            forall|j: int| 0 <= j < i ==> pairs(labels@)[j] != (wanted.key@, wanted.value@),
        decreases labels.len() - i,
    {
        if labels[i].key == wanted.key && labels[i].value == wanted.value {
            assert(pairs(labels@)[i as int] == (wanted.key@, wanted.value@));
            return true;
        }
        i += 1;
    }
    false
}

fn has_all(labels: &Vec<Label>, selector: &Vec<Label>) -> (r: bool)
    ensures
        r == holds_all(pairs(labels@), pairs(selector@)),
{
    let mut i: usize = 0;
    while i < selector.len()
        invariant
            i <= selector.len(),
            forall|j: int| 0 <= j < i ==> pairs(labels@).contains(#[trigger] pairs(selector@)[j]),
        decreases selector.len() - i,
    {
        if !has_pair(labels, &selector[i]) {
            assert(pairs(selector@)[i as int] == (selector@[i as int].key@, selector@[i as int].value@));
            return false;
        }
        assert(pairs(selector@)[i as int] == (selector@[i as int].key@, selector@[i as int].value@));
        i += 1;
    }
    true
}

fn copy_labels(labels: &Vec<Label>) -> (r: Vec<Label>)
    ensures
        pairs(r@) == pairs(labels@),
{
    let mut out: Vec<Label> = Vec::new();
    let mut i: usize = 0;
    while i < labels.len()
        invariant
            i <= labels.len(),
            out@.len() == i,
            forall|j: int| 0 <= j < i ==> pairs(out@)[j] == pairs(labels@)[j],
        decreases labels.len() - i,
    {
        out.push(Label { key: labels[i].key.clone(), value: labels[i].value.clone() });
        i += 1;
    }
    assert(pairs(out@) =~= pairs(labels@));
    out
}

fn copy_pod(pod: &Pod) -> (r: Pod)
    ensures
        r@ == pod@,
{
    Pod {
        name: pod.name.clone(),
        labels: match &pod.labels {
            Some(labels) => Some(copy_labels(labels)),
            None => None,
        },
    }
}

impl Filter for List {
    open spec fn selection(&self, selector: Pairs) -> Option<Seq<PodModel>> {
        let kept = picked(self@, selector, self@.len() as int);
        if kept.len() > 0 {
            Some(kept)
        } else {
            None
        }
    }

    open spec fn pods(&self) -> Seq<PodModel> {
        self@
    }

    /// The pods that `selector` picks, if it picks any.
    fn filter_by_labels(&self, selector: &Vec<Label>) -> (r: Option<Self>) {
        let mut kept: Vec<Pod> = Vec::new();
        let mut i: usize = 0;
        while i < self.items.len()
            invariant
                i <= self.items.len(),
                Seq::new(kept@.len(), |k: int| kept@[k]@) == picked(
                    self@,
                    pairs(selector@),
                    i as int,
                ),
            decreases self.items.len() - i,
        {
            let pod: &Pod = &self.items[i];
            let chosen: bool = match &pod.labels {
                Some(labels) => has_all(labels, selector),
                None => false,
            };
            assert(self@[i as int] == pod@);
            assert(chosen == picks(pairs(selector@), self@[i as int]));
            if chosen {
                let ghost before = kept@;
                let copy: Pod = copy_pod(pod);
                kept.push(copy);
                assert(Seq::new(kept@.len(), |k: int| kept@[k]@) =~= Seq::new(
                    before.len(),
                    |k: int| before[k]@,
                ).push(pod@));
            }
            i += 1;
        }
        if kept.len() > 0 {
            Some(List { items: kept })
        } else {
            None
        }
    }
}

impl List {
    /// The names of the pods, in order.
    pub fn to_value(&self) -> (r: Vec<String>)
        ensures
            texts(r@) == names(self@),
    {
        let mut out: Vec<String> = Vec::new();
        let mut i: usize = 0;
        while i < self.items.len()
            invariant
                i <= self.items.len(),
                out@.len() == i,
                forall|j: int| 0 <= j < i ==> out@[j]@ == self.items@[j].name@,
            decreases self.items.len() - i,
        {
            out.push(self.items[i].name.clone());
            i += 1;
        }
        assert(texts(out@) =~= names(self@));
        out
    }
}

/// What is asked for to find the pods that belong to something: the
/// namespace to look in and the labels to look for.
pub struct RelatedPod {
    namespace: String,
    selector: Vec<Label>,
}

impl RelatedPod {
    pub closed spec fn namespace(&self) -> Seq<char> {
        self.namespace@
    }

    pub closed spec fn selector(&self) -> Pairs {
        pairs(self.selector@)
    }

    pub fn new(namespace: &str, selector: Vec<Label>) -> (r: RelatedPod)
        ensures
            r.namespace() == namespace@,
            r.selector() == pairs(selector@),
    {
        RelatedPod { namespace: namespace.to_owned(), selector }
    }

    /// Where the pods of the namespace are fetched from.
    pub fn path(&self) -> (r: String)
        ensures
            r@ == "/api/v1/namespaces/"@ + self.namespace() + "/pods"@,
    {
        let mut out: String = String::from_str("/api/v1/namespaces/");
        out.append(self.namespace.as_str());
        out.append("/pods");
        out
    }

    /// The names of those of the fetched pods that the selector picks, if
    /// it picks any.
    pub fn related_resources(&self, fetched: &List) -> (r: Option<Vec<String>>)
        ensures
            r is Some == fetched.selection(self.selector()) is Some,
            r is Some ==> texts(r->0@) == names(fetched.selection(self.selector())->0),
    {
        match fetched.filter_by_labels(&self.selector) {
            Some(list) => Some(list.to_value()),
            None => None,
        }
    }
}

} // verus!
