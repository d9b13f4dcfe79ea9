//! Component definitions, as modules offer them to clients.

use crate::button::str_equal;
use crate::lookup::{first_index, lemma_first_index};
use vstd::prelude::*;

verus! {

/// What a client is told about a component.
pub struct ComponentDefinition {
    pub display_name: String,
    pub description: String,
    /// The looks a button gets with the component, as serialized text.
    pub default_looks: String,
}

/// The value of a definition: display name, description and looks.
pub type DefinitionView = (Seq<char>, Seq<char>, Seq<char>);

impl View for ComponentDefinition {
    type V = DefinitionView;

    open spec fn view(&self) -> DefinitionView {
        (self.display_name@, self.description@, self.default_looks@)
    }
}

/// A definition under the name of its component.
pub struct NamedDefinition {
    pub name: String,
    pub definition: ComponentDefinition,
}

/// The value of a named definition.
pub type NamedView = (Seq<char>, DefinitionView);

impl View for NamedDefinition {
    type V = NamedView;

    open spec fn view(&self) -> NamedView {
        (self.name@, self.definition@)
    }
}

/// The definitions of one module.
pub struct ModuleComponents {
    pub module: String,
    pub components: Vec<NamedDefinition>,
}

/// The values of a list of named definitions.
pub open spec fn definitions_view(v: Seq<NamedDefinition>) -> Seq<NamedView> {
    v.map_values(|d: NamedDefinition| d@)
}

/// The names of a list of definitions.
pub open spec fn names_of(acc: Seq<NamedView>) -> Seq<Seq<char>> {
    acc.map_values(|e: NamedView| e.0)
}

/// `acc` with `e` under its name: in place of the definition of that name,
/// else at the end.
pub open spec fn put(acc: Seq<NamedView>, e: NamedView) -> Seq<NamedView> {
    let i = first_index(names_of(acc), e.0);
    if i < acc.len() {
        acc.update(i, e)
    } else {
        acc.push(e)
    }
}

/// `acc` with each of `items` put, the first of them first.
pub open spec fn put_all(acc: Seq<NamedView>, items: Seq<NamedView>) -> Seq<NamedView>
    decreases items.len(),
{
    if items.len() == 0 {
        acc
    } else {
        put(put_all(acc, items.drop_last()), items.last())
    }
}

/// The definitions of all `modules` in one list, without their modules'
/// names. Where two modules define a component of one name, the later one
/// stays.
pub open spec fn merged(modules: Seq<ModuleComponents>) -> Seq<NamedView>
    decreases modules.len(),
{
    if modules.len() == 0 {
        Seq::empty()
    } else {
        put_all(merged(modules.drop_last()), definitions_view(modules.last().components@))
    }
}

/// Puts a copy of `item` into `map` under its name.
pub fn put_definition(map: &mut Vec<NamedDefinition>, item: &NamedDefinition)
    ensures
        definitions_view(final(map)@) == put(definitions_view(old(map)@), item@),
{
    let copy = NamedDefinition {
        name: item.name.clone(),
        definition: ComponentDefinition {
            display_name: item.definition.display_name.clone(),
            description: item.definition.description.clone(),
            default_looks: item.definition.default_looks.clone(),
        },
    };
    let ghost names = names_of(definitions_view(map@));
    assert(copy@ == item@);
    let mut i: usize = 0;
    while i < map.len()
        invariant
            i <= map.len(),
            *map == *old(map),
            copy@ == item@,
            names == names_of(definitions_view(map@)),
            forall|j: int| 0 <= j < i ==> names[j] != item.name@,
        decreases map.len() - i,
    {
        if str_equal(map[i].name.as_str(), item.name.as_str()) {
            proof {
                lemma_first_index(names, item.name@, i as int);
            }
            map.set(i, copy);
            assert(definitions_view(map@) =~= definitions_view(old(map)@).update(i as int, item@));
            return ;
        }
        i = i + 1;
    }
    proof {
        lemma_first_index(names, item.name@, i as int);
    }
    map.push(copy);
    assert(definitions_view(map@) =~= definitions_view(old(map)@).push(item@));
}

/// Turns the definitions by module into one list of definitions, for
/// callers that do not care which module offers a component.
pub fn module_component_map_to_component_map(component_map: &Vec<ModuleComponents>) -> (map: Vec<
    NamedDefinition,
>)
    ensures
        definitions_view(map@) == merged(component_map@),
{
    let mut map: Vec<NamedDefinition> = Vec::new();
    let mut m: usize = 0;
    assert(definitions_view(map@) =~= merged(component_map@.take(0)));
    while m < component_map.len()
        invariant
            m <= component_map.len(),
            definitions_view(map@) == merged(component_map@.take(m as int)),
        decreases component_map.len() - m,
    {
        let components = &component_map[m].components;
        let ghost base = definitions_view(map@);
        let ghost items = definitions_view(components@);
        let mut c: usize = 0;
        assert(items.take(0) =~= Seq::<NamedView>::empty());
        while c < components.len()
            invariant
                c <= components.len(),
                items == definitions_view(components@),
                definitions_view(map@) == put_all(base, items.take(c as int)),
            decreases components.len() - c,
        {
            assert(items.take(c as int + 1).drop_last() =~= items.take(c as int));
            assert(items.take(c as int + 1).last() == components@[c as int]@);
            put_definition(&mut map, &components[c]);
            c = c + 1;
        }
        assert(items.take(c as int) =~= items);
        assert(component_map@.take(m as int + 1).drop_last() =~= component_map@.take(m as int));
        assert(component_map@.take(m as int + 1).last() == component_map@[m as int]);
        m = m + 1;
    }
    assert(component_map@.take(m as int) =~= component_map@);
    map
}

} // verus!
