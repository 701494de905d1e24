//! A JSON value the library can reason about, and the deep merge of objects.
use vstd::prelude::*;

verus! {

/// A JSON document. Numbers keep their text; an object's keys are distinct.
#[derive(Debug)]
pub enum JsonValue {
    Null,
    Bool(bool),
    Number(String),
    Text(String),
    Array(Vec<JsonValue>),
    Object(Vec<(String, JsonValue)>),
}

pub ghost enum JsonView {
    Null,
    Bool(bool),
    Number(Seq<char>),
    Text(Seq<char>),
    Array(Seq<JsonView>),
    Object(Seq<(Seq<char>, JsonView)>),
}

impl JsonValue {
    pub open spec fn view(&self) -> JsonView
        decreases self,
    {
        match self {
            JsonValue::Null => JsonView::Null,
            JsonValue::Bool(b) => JsonView::Bool(*b),
            JsonValue::Number(n) => JsonView::Number(n@),
            JsonValue::Text(t) => JsonView::Text(t@),
            JsonValue::Array(items) => JsonView::Array(
                Seq::new(
                    items@.len(),
                    |i: int|
                        {
                            if 0 <= i < items@.len() {
                                items@[i].view()
                            } else {
                                JsonView::Null
                            }
                        },
                ),
            ),
            JsonValue::Object(entries) => JsonView::Object(
                Seq::new(
                    entries@.len(),
                    |i: int|
                        {
                            if 0 <= i < entries@.len() {
                                (entries@[i].0@, entries@[i].1.view())
                            } else {
                                (Seq::empty(), JsonView::Null)
                            }
                        },
                ),
            ),
        }
    }
}

/// The position of the first entry of `es` with key `k`, from position `i` on.
pub open spec fn key_index_from(es: Seq<(Seq<char>, JsonView)>, k: Seq<char>, i: int) -> Option<int>
    decreases es.len() - i,
{
    if i < 0 || i >= es.len() {
        None
    } else if es[i].0 == k {
        Some(i)
    } else {
        key_index_from(es, k, i + 1)
    }
}

/// The entries of `be` whose keys `ae` lacks, in order.
pub open spec fn entries_added(
    ae: Seq<(Seq<char>, JsonView)>,
    be: Seq<(Seq<char>, JsonView)>,
) -> Seq<(Seq<char>, JsonView)>
    decreases be.len(),
{
    if be.len() == 0 {
        Seq::empty()
    } else if key_index_from(ae, be.last().0, 0) is None {
        entries_added(ae, be.drop_last()).push(be.last())
    } else {
        entries_added(ae, be.drop_last())
    }
}

/// The deep merge of `b` into `a`. Two objects merge key by key: a key of
/// both takes the merge of its two values, a key of one keeps its value; the
/// keys of `a` come first, in their order, then the new keys of `b`, in
/// theirs. Anything else is replaced by `b`.
pub open spec fn merged(a: JsonView, b: JsonView) -> JsonView
    decreases b,
{
    match b {
        JsonView::Object(be) => match a {
            JsonView::Object(ae) => JsonView::Object(
                Seq::new(
                    ae.len(),
                    |i: int|
                        if 0 <= i < ae.len() {
                            (
                                ae[i].0,
                                match key_index_from(be, ae[i].0, 0) {
                                    Some(j) => if 0 <= j < be.len() {
                                        merged(ae[i].1, be[j].1)
                                    } else {
                                        ae[i].1
                                    },
                                    None => ae[i].1,
                                },
                            )
                        } else {
                            (Seq::empty(), JsonView::Null)
                        },
                ) + entries_added(ae, be),
            ),
            _ => b,
        },
        _ => b,
    }
}

proof fn lemma_key_index_bounds(es: Seq<(Seq<char>, JsonView)>, k: Seq<char>, i: int)
    requires
        0 <= i,
    ensures
        key_index_from(es, k, i) matches Some(j) ==> i <= j < es.len() && es[j].0 == k,
    decreases es.len() - i,
{
    if i < es.len() && es[i].0 != k {
        lemma_key_index_bounds(es, k, i + 1);
    }
}

/// The entries of an object as views.
pub open spec fn entry_views(es: Seq<(String, JsonValue)>) -> Seq<(Seq<char>, JsonView)> {
    Seq::new(es.len(), |i: int| (es[i].0@, es[i].1.view()))
}

proof fn lemma_object_view(es: Vec<(String, JsonValue)>)
    ensures
        JsonValue::Object(es).view() == JsonView::Object(entry_views(es@)),
{
    let v = JsonValue::Object(es).view();
    assert(v->Object_0 =~= entry_views(es@));
}

/// The position of the first entry with key `k`.
fn find_key(es: &Vec<(String, JsonValue)>, k: &String) -> (r: Option<usize>)
    ensures
        match r {
            Some(j) => key_index_from(entry_views(es@), k@, 0) == Some(j as int),
            None => key_index_from(entry_views(es@), k@, 0) is None,
        },
{
    let ghost ev = entry_views(es@);
    let mut i: usize = 0;
    while i < es.len()
        invariant
            0 <= i <= es@.len(),
            ev == entry_views(es@),
            key_index_from(ev, k@, 0) == key_index_from(ev, k@, i as int),
        decreases es@.len() - i,
    {
        if es[i].0 == *k {
            return Some(i);
        }
        i += 1;
    }
    None
}

impl JsonValue {
    /// A copy of the value.
    pub fn deep_clone(&self) -> (r: JsonValue)
        ensures
            r.view() == self.view(),
        decreases self,
    {
        match self {
            JsonValue::Null => JsonValue::Null,
            JsonValue::Bool(b) => JsonValue::Bool(*b),
            JsonValue::Number(n) => JsonValue::Number(n.clone()),
            JsonValue::Text(t) => JsonValue::Text(t.clone()),
            JsonValue::Array(items) => {
                let mut out: Vec<JsonValue> = Vec::new();
                let mut i: usize = 0;
                while i < items.len()
                    invariant
                        0 <= i <= items@.len(),
                        *self == JsonValue::Array(*items),
                        out@.len() == i,
                        forall|t: int| 0 <= t < i ==> (#[trigger] out@[t]).view() == items@[t].view(),
                    decreases items@.len() - i,
                {
                    proof {
                        assert(self->Array_0 == *items);
                        assert(decreases_to!(*self => self->Array_0));
                        assert(decreases_to!(*items => items@));
                        assert(decreases_to!(items@ => items@[i as int]));
                        assert(decreases_to!(self => items@[i as int]));
                    }
                    out.push(items[i].deep_clone());
                    i += 1;
                }
                let r = JsonValue::Array(out);
                assert(r.view()->Array_0 =~= self.view()->Array_0);
                r
            },
            JsonValue::Object(entries) => {
                let mut out: Vec<(String, JsonValue)> = Vec::new();
                let mut i: usize = 0;
                while i < entries.len()
                    invariant
                        0 <= i <= entries@.len(),
                        *self == JsonValue::Object(*entries),
                        out@.len() == i,
                        forall|t: int|
                            0 <= t < i ==> (#[trigger] out@[t]).0@ == entries@[t].0@
                                && out@[t].1.view() == entries@[t].1.view(),
                    decreases entries@.len() - i,
                {
                    proof {
                        assert(self->Object_0 == *entries);
                        assert(decreases_to!(*self => self->Object_0));
                        assert(decreases_to!(*entries => entries@));
                        assert(decreases_to!(entries@ => entries@[i as int]));
                        assert(decreases_to!(self => entries@[i as int].1));
                    }
                    out.push((entries[i].0.clone(), entries[i].1.deep_clone()));
                    i += 1;
                }
                let r = JsonValue::Object(out);
                assert(r.view()->Object_0 =~= self.view()->Object_0);
                r
            },
        }
    }
}

/// The deep merge of `b` into `a`.
pub fn merge(a: &JsonValue, b: &JsonValue) -> (r: JsonValue)
    ensures
        r.view() == merged(a.view(), b.view()),
    decreases b,
{
    match (a, b) {
        (JsonValue::Object(ae), JsonValue::Object(be)) => {
            let ghost av = entry_views(ae@);
            let ghost bv = entry_views(be@);
            proof {
                lemma_object_view(*ae);
                lemma_object_view(*be);
            }
            let ghost head = merged(a.view(), b.view())->Object_0.take(ae@.len() as int);
            let mut out: Vec<(String, JsonValue)> = Vec::new();
            let mut i: usize = 0;
            while i < ae.len()
                invariant
                    0 <= i <= ae@.len(),
                    av == entry_views(ae@),
                    bv == entry_views(be@),
                    a.view() == JsonView::Object(av),
                    b.view() == JsonView::Object(bv),
                    *a == JsonValue::Object(*ae),
                    *b == JsonValue::Object(*be),
                    head == merged(a.view(), b.view())->Object_0.take(ae@.len() as int),
                    out@.len() == i,
                    forall|t: int|
                        0 <= t < i ==> ((#[trigger] out@[t]).0@, out@[t].1.view()) == head[t],
                decreases ae@.len() - i,
            {
                let v = match find_key(be, &ae[i].0) {
                    Some(j) => {
                        proof {
                            lemma_key_index_bounds(bv, av[i as int].0, 0);
                            assert(decreases_to!(b => be@[j as int].1));
                        }
                        merge(&ae[i].1, &be[j].1)
                    },
                    None => ae[i].1.deep_clone(),
                };
                out.push((ae[i].0.clone(), v));
                i += 1;
            }
            let mut j: usize = 0;
            proof {
                assert(bv.take(0) =~= Seq::<(Seq<char>, JsonView)>::empty());
                assert(entry_views(out@) =~= head + entries_added(av, bv.take(0)));
            }
            while j < be.len()
                invariant
                    0 <= j <= be@.len(),
                    av == entry_views(ae@),
                    bv == entry_views(be@),
                    head.len() == ae@.len(),
                    entry_views(out@) == head + entries_added(av, bv.take(j as int)),
                decreases be@.len() - j,
            {
                let ghost before = entry_views(out@);
                proof {
                    assert(bv.take(j as int + 1).drop_last() =~= bv.take(j as int));
                }
                if find_key(ae, &be[j].0).is_none() {
                    out.push((be[j].0.clone(), be[j].1.deep_clone()));
                    proof {
                        assert(entry_views(out@) =~= before.push(bv[j as int]));
                    }
                } else {
                    proof {
                        assert(entry_views(out@) =~= before);
                    }
                }
                j += 1;
            }
            proof {
                assert(bv.take(be@.len() as int) =~= bv);
                lemma_object_view(out);
                assert(entry_views(out@) =~= merged(a.view(), b.view())->Object_0);
            }
            JsonValue::Object(out)
        },
        _ => b.deep_clone(),
    }
}

} // verus!
