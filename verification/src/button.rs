//! Buttons: bags of named components.

use crate::json::copy_value;
use serde_json::Value;
use vstd::prelude::*;

verus! {

/// A named capability of a button. The payload is a JSON value that is
/// carried and never interpreted here.
pub struct Component {
    pub name: String,
    pub data: Value,
}

/// Mathematical value of a component: its name and its payload.
pub type ComponentView = (Seq<char>, Value);

/// Mathematical value of a button: its components in insertion order.
pub type ButtonView = Seq<ComponentView>;

impl View for Component {
    type V = ComponentView;

    open spec fn view(&self) -> ComponentView {
        (self.name@, self.data)
    }
}

/// True when some component of `v` is called `name`.
pub open spec fn has_component(v: ButtonView, name: Seq<char>) -> bool {
    exists|i: int| 0 <= i < v.len() && (#[trigger] v[i]).0 == name
}

/// `v` with every component called `name` taken out, the others in order.
pub open spec fn without_component(v: ButtonView, name: Seq<char>) -> ButtonView
    decreases v.len(),
{
    if v.len() == 0 {
        v
    } else if v.last().0 == name {
        without_component(v.drop_last(), name)
    } else {
        without_component(v.drop_last(), name).push(v.last())
    }
}

/// The payload of the first component of `v` called `name`.
pub open spec fn component_data(v: ButtonView, name: Seq<char>) -> Option<Value>
    decreases v.len(),
{
    if v.len() == 0 {
        None
    } else if v[0].0 == name {
        Some(v[0].1)
    } else {
        component_data(v.subrange(1, v.len() as int), name)
    }
}

/// No two components of `v` share a name.
pub open spec fn distinct_names(v: ButtonView) -> bool {
    forall|i: int, j: int| 0 <= i < j < v.len() ==> (#[trigger] v[i]).0 != (#[trigger] v[j]).0
}

/// Taking a name out leaves no component of that name, keeps every other
/// membership, and keeps names distinct.
pub proof fn lemma_without_component(v: ButtonView, name: Seq<char>)
    ensures
        !has_component(without_component(v, name), name),
        without_component(v, name).len() <= v.len(),
        forall|c: ComponentView| #[trigger]
            without_component(v, name).contains(c) <==> (v.contains(c) && c.0 != name),
        distinct_names(v) ==> distinct_names(without_component(v, name)),
    decreases v.len(),
{
    let w = without_component(v, name);
    if v.len() == 0 {
    } else {
        let p = v.drop_last();
        let wp = without_component(p, name);
        lemma_without_component(p, name);
        assert forall|c: ComponentView| #[trigger] w.contains(c) <==> (v.contains(c) && c.0 != name) by {
            if w.contains(c) {
                let i = choose|i: int| 0 <= i < w.len() && w[i] == c;
                if i < wp.len() {
                    assert(wp.contains(c));
                    let j = choose|j: int| 0 <= j < p.len() && p[j] == c;
                    assert(v[j] == c);
                } else {
                    assert(v[v.len() - 1] == c);
                }
            }
            if v.contains(c) && c.0 != name {
                let j = choose|j: int| 0 <= j < v.len() && v[j] == c;
                if j < p.len() {
                    assert(p[j] == c);
                    assert(p.contains(c));
                    assert(wp.contains(c));
                    let i = choose|i: int| 0 <= i < wp.len() && wp[i] == c;
                    assert(w[i] == c);
                } else {
                    assert(w[w.len() - 1] == c);
                }
            }
        }
        if distinct_names(v) {
            assert forall|i: int, j: int| 0 <= i < j < p.len() implies (#[trigger] p[i]).0 != (
            #[trigger] p[j]).0 by {
                assert(v[i].0 != v[j].0);
            }
            if v.last().0 != name {
                assert forall|i: int, j: int| 0 <= i < j < w.len() implies (#[trigger] w[i]).0 != (
                #[trigger] w[j]).0 by {
                    if j == w.len() - 1 {
                        assert(wp.contains(wp[i]));
                        assert(v.contains(wp[i]));
                        let k = choose|k: int| 0 <= k < v.len() && v[k] == wp[i];
                        if k == v.len() - 1 {
                            let k2 = choose|k2: int| 0 <= k2 < p.len() && p[k2] == wp[i];
                            assert(wp.contains(wp[i]));
                            assert(p.contains(wp[i]));
                            assert(v[k2].0 != v[v.len() - 1].0);
                        } else {
                            assert(v[k].0 != v[v.len() - 1].0);
                        }
                    }
                }
            }
        }
        if has_component(w, name) {
            let i = choose|i: int| 0 <= i < w.len() && (#[trigger] w[i]).0 == name;
            assert(w.contains(w[i]));
        }
    }
}

/// A button: an open bag of named components, at most one of each name.
pub struct Button {
    pub components: Vec<Component>,
}

impl View for Button {
    type V = ButtonView;

    open spec fn view(&self) -> ButtonView {
        self.components@.map_values(|c: Component| c@)
    }
}

impl Button {
    /// The button's invariant: component names are distinct.
    pub open spec fn wf(&self) -> bool {
        distinct_names(self@)
    }

    /// A button with no components.
    pub fn new() -> (b: Button)
        ensures
            b@ == Seq::<ComponentView>::empty(),
            b.wf(),
    {
        let b = Button { components: Vec::new() };
        assert(b@ =~= Seq::<ComponentView>::empty());
        b
    }

    /// An independent copy with the same components.
    pub fn duplicate(&self) -> (b: Button)
        ensures
            b@ == self@,
    {
        let mut out: Vec<Component> = Vec::new();
        let mut i: usize = 0;
        while i < self.components.len()
            invariant
                i <= self.components.len(),
                out@.len() == i,
                forall|j: int| 0 <= j < i ==> (#[trigger] out@[j])@ == self.components@[j]@,
            decreases self.components.len() - i,
        {
            let c = &self.components[i];
            out.push(Component { name: c.name.clone(), data: copy_value(&c.data) });
            i = i + 1;
        }
        let b = Button { components: out };
        assert(b@ =~= self@);
        b
    }

    /// Whether a component called `name` is present.
    pub fn contains(&self, name: &str) -> (r: bool)
        ensures
            r == has_component(self@, name@),
    {
        let mut i: usize = 0;
        while i < self.components.len()
            invariant
                i <= self.components.len(),
                forall|j: int| 0 <= j < i ==> (#[trigger] self@[j]).0 != name@,
            decreases self.components.len() - i,
        {
            if str_equal(self.components[i].name.as_str(), name) {
                assert(self@[i as int].0 == name@);
                return true;
            }
            i = i + 1;
        }
        false
    }

    /// The payload of the component called `name`, if there is one.
    pub fn component(&self, name: &str) -> (r: Option<Value>)
        ensures
            r.is_some() == has_component(self@, name@),
            r == component_data(self@, name@),
    {
        let mut i: usize = 0;
        assert(self@.subrange(0, self@.len() as int) =~= self@);
        while i < self.components.len()
            invariant
                i <= self.components.len(),
                forall|j: int| 0 <= j < i ==> (#[trigger] self@[j]).0 != name@,
                component_data(self@, name@) == component_data(
                    self@.subrange(i as int, self@.len() as int),
                    name@,
                ),
            decreases self.components.len() - i,
        {
            let ghost rest = self@.subrange(i as int, self@.len() as int);
            assert(rest[0] == self@[i as int]);
            assert(rest.subrange(1, rest.len() as int) =~= self@.subrange(
                i as int + 1,
                self@.len() as int,
            ));
            if str_equal(self.components[i].name.as_str(), name) {
                return Some(copy_value(&self.components[i].data));
            }
            i = i + 1;
        }
        None
    }

    /// Puts the component `name` with payload `data`, in place of any
    /// component of that name.
    pub fn insert_component(&mut self, name: &str, data: Value)
        ensures
            final(self)@ == without_component(old(self)@, name@).push((name@, data)),
            old(self).wf() ==> final(self).wf(),
    {
        self.remove_component(name);
        proof {
            lemma_without_component(old(self)@, name@);
        }
        let ghost before = self@;
        self.components.push(Component { name: name.to_owned(), data });
        assert(self@ =~= before.push((name@, data)));
        proof {
            if old(self).wf() {
                assert forall|i: int, j: int| 0 <= i < j < self@.len() implies (
                #[trigger] self@[i]).0 != (#[trigger] self@[j]).0 by {
                    if j == self@.len() - 1 {
                        assert(before[i].0 != name@);
                    }
                }
            }
        }
    }

    /// Takes the component called `name` out; without one, nothing changes.
    pub fn remove_component(&mut self, name: &str)
        ensures
            final(self)@ == without_component(old(self)@, name@),
            old(self).wf() ==> final(self).wf(),
    {
        let mut out: Vec<Component> = Vec::new();
        let mut i: usize = 0;
        let ghost whole = self@;
        while i < self.components.len()
            invariant
                i <= self.components.len(),
                self@ == whole,
                out@.map_values(|c: Component| c@) == without_component(
                    whole.take(i as int),
                    name@,
                ),
            decreases self.components.len() - i,
        {
            let ghost prev = out@.map_values(|c: Component| c@);
            assert(whole.take(i as int + 1).drop_last() =~= whole.take(i as int));
            assert(whole.take(i as int + 1).last() == whole[i as int]);
            let c = &self.components[i];
            if !str_equal(c.name.as_str(), name) {
                out.push(Component { name: c.name.clone(), data: copy_value(&c.data) });
                assert(out@.map_values(|c: Component| c@) =~= prev.push(whole[i as int]));
            }
            i = i + 1;
        }
        assert(whole.take(i as int) =~= whole);
        self.components = out;
        proof {
            lemma_without_component(whole, name@);
        }
    }
}

/// Whether two strings hold the same characters.
pub fn str_equal(a: &str, b: &str) -> (r: bool)
    ensures
        r == (a@ == b@),
{
    let x = a.to_owned();
    let y = b.to_owned();
    x == y
}

} // verus!
