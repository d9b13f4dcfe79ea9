//! The values that a component shows in an editor, and the folder
//! module's part in showing and changing them.

use crate::button::{str_equal, without_component, Button, ButtonView};
use crate::device::{unchanged_but_panels, SDCore};
use crate::folders::{
    find_folder, find_reference, folder_component_value, folder_ids, folder_link_value,
    folder_of_button, get_folder, link_of_button, reference_ids, update_folder, FolderComponent, FolderEntry, FolderLinkComponent, FolderModule,
    FolderReference,
};
use crate::lookup::{first_index, known, lemma_first_index_is_first};
use crate::panel::raw_view;
use crate::stack::frame_view;
use vstd::prelude::*;
use vstd::string::{StrSliceExecFns, StringExecFns};

verus! {

/// The kind of a field.
pub enum UIFieldType {
    Header,
    Label,
    InputFieldInteger,
    InputFieldString,
    Checkbox,
    Choice(Vec<String>),
}

/// The value of a field.
pub enum UIFieldValue {
    Header,
    Label(String),
    InputFieldInteger(i32),
    InputFieldString(String),
    Checkbox(bool),
    Choice(String),
}

/// A field of a component as an editor shows it.
pub struct UIValue {
    pub name: String,
    pub display_name: String,
    pub description: String,
    pub ty: UIFieldType,
    pub value: UIFieldValue,
}

/// The value of a `UIFieldType`.
pub ghost enum FieldTypeView {
    Header,
    Label,
    InputFieldInteger,
    InputFieldString,
    Checkbox,
    Choice(Seq<Seq<char>>),
}

/// The value of a `UIFieldValue`.
pub ghost enum FieldValueView {
    Header,
    Label(Seq<char>),
    InputFieldInteger(i32),
    InputFieldString(Seq<char>),
    Checkbox(bool),
    Choice(Seq<char>),
}

/// The value of a `UIValue`.
pub ghost struct UIValueView {
    pub name: Seq<char>,
    pub display_name: Seq<char>,
    pub description: Seq<char>,
    pub ty: FieldTypeView,
    pub value: FieldValueView,
}

impl View for UIFieldType {
    type V = FieldTypeView;

    open spec fn view(&self) -> FieldTypeView {
        match self {
            UIFieldType::Header => FieldTypeView::Header,
            UIFieldType::Label => FieldTypeView::Label,
            UIFieldType::InputFieldInteger => FieldTypeView::InputFieldInteger,
            UIFieldType::InputFieldString => FieldTypeView::InputFieldString,
            UIFieldType::Checkbox => FieldTypeView::Checkbox,
            UIFieldType::Choice(c) => FieldTypeView::Choice(c@.map_values(|s: String| s@)),
        }
    }
}

impl View for UIFieldValue {
    type V = FieldValueView;

    open spec fn view(&self) -> FieldValueView {
        match self {
            UIFieldValue::Header => FieldValueView::Header,
            UIFieldValue::Label(s) => FieldValueView::Label(s@),
            UIFieldValue::InputFieldInteger(i) => FieldValueView::InputFieldInteger(*i),
            UIFieldValue::InputFieldString(s) => FieldValueView::InputFieldString(s@),
            UIFieldValue::Checkbox(b) => FieldValueView::Checkbox(*b),
            UIFieldValue::Choice(s) => FieldValueView::Choice(s@),
        }
    }
}

impl View for UIValue {
    type V = UIValueView;

    open spec fn view(&self) -> UIValueView {
        UIValueView {
            name: self.name@,
            display_name: self.display_name@,
            description: self.description@,
            ty: self.ty@,
            value: self.value@,
        }
    }
}

/// The text of a value that holds one.
pub open spec fn text_of(v: FieldValueView) -> Option<Seq<char>> {
    match v {
        FieldValueView::Label(s) => Some(s),
        FieldValueView::InputFieldString(s) => Some(s),
        FieldValueView::Choice(s) => Some(s),
        _ => None,
    }
}

impl UIFieldValue {
    /// The text of the value, where it holds one.
    pub fn try_into_string(&self) -> (r: Option<String>)
        ensures
            match r {
                Some(s) => text_of(self@) == Some(s@),
                None => text_of(self@).is_none(),
            },
    {
        match self {
            UIFieldValue::Label(s) => Some(s.clone()),
            UIFieldValue::InputFieldString(s) => Some(s.clone()),
            UIFieldValue::Choice(s) => Some(s.clone()),
            _ => None,
        }
    }
}

/// The values of a list of fields.
pub open spec fn values_view(values: Seq<UIValue>) -> Seq<UIValueView> {
    values.map_values(|v: UIValue| v@)
}

/// The last of `values` called `name`.
pub open spec fn last_named(values: Seq<UIValueView>, name: Seq<char>) -> Option<UIValueView>
    decreases values.len(),
{
    if values.len() == 0 {
        None
    } else if values.last().name == name {
        Some(values.last())
    } else {
        last_named(values.drop_last(), name)
    }
}

/// The text that `values` give for the field `name`: that of the last
/// field of that name, where it holds a text.
pub open spec fn named_text(values: Seq<UIValueView>, name: Seq<char>) -> Option<Seq<char>> {
    match last_named(values, name) {
        Some(v) => text_of(v.value),
        None => None,
    }
}

/// Reads the text that `values` give for the field `name`.
pub fn text_named(values: &Vec<UIValue>, name: &str) -> (r: Option<String>)
    ensures
        match r {
            Some(s) => named_text(values_view(values@), name@) == Some(s@),
            None => named_text(values_view(values@), name@).is_none(),
        },
{
    let mut i: usize = values.len();
    let ghost all = values_view(values@);
    assert(all.take(i as int) =~= all);
    while i > 0
        invariant
            i <= values.len(),
            all == values_view(values@),
            last_named(all, name@) == last_named(all.take(i as int), name@),
        decreases i,
    {
        assert(all.take(i as int).drop_last() =~= all.take(i as int - 1));
        assert(all.take(i as int).last() == values@[i as int - 1]@);
        i = i - 1;
        if str_equal(values[i].name.as_str(), name) {
            return values[i].value.try_into_string();
        }
    }
    None
}

/// How a folder reads in a list of choices: its name, then its id in
/// round brackets.
pub open spec fn choice_text(display_name: Seq<char>, id: Seq<char>) -> Seq<char> {
    display_name + seq![' ', '('] + id + seq![')']
}

/// The choices that `folders` give, in their order.
pub open spec fn choices_of(folders: Seq<FolderEntry>) -> Seq<Seq<char>> {
    folders.map_values(|e: FolderEntry| choice_text(e.panel.display_name@, e.id@))
}

/// Writes the choice for a folder.
pub fn choice_for(display_name: &str, id: &str) -> (r: String)
    ensures
        r@ == choice_text(display_name@, id@),
{
    proof {
        reveal_strlit(" (");
        reveal_strlit(")");
    }
    let mut r = display_name.to_owned();
    r.append(" (");
    r.append(id);
    r.append(")");
    assert(" ("@ =~= seq![' ', '(']);
    assert(")"@ =~= seq![')']);
    r
}

/// Lists the choices that `folders` give.
pub fn list_choices(folders: &Vec<FolderEntry>) -> (r: Vec<String>)
    ensures
        r@.map_values(|s: String| s@) == choices_of(folders@),
{
    let mut out: Vec<String> = Vec::new();
    let mut i: usize = 0;
    while i < folders.len()
        invariant
            i <= folders.len(),
            out@.len() == i,
            forall|j: int|
                0 <= j < i ==> (#[trigger] out@[j])@ == choice_text(
                    folders@[j].panel.display_name@,
                    folders@[j].id@,
                ),
        decreases folders.len() - i,
    {
        out.push(choice_for(folders[i].panel.display_name.as_str(), folders[i].id.as_str()));
        i = i + 1;
    }
    assert(out@.map_values(|s: String| s@) =~= choices_of(folders@));
    out
}

/// Whether a character is a round bracket.
pub open spec fn is_bracket(c: char) -> bool {
    c == '(' || c == ')'
}

/// The number of characters before the first round bracket of `s`; its
/// length where it holds none.
pub open spec fn bracket_index(s: Seq<char>) -> int
    decreases s.len(),
{
    if s.len() == 0 || is_bracket(s[0]) {
        0
    } else {
        1 + bracket_index(s.skip(1))
    }
}

/// What stands between the first round bracket of `s` and the next one, or
/// the end; `None` where `s` holds no round bracket.
pub open spec fn second_piece(s: Seq<char>) -> Option<Seq<char>> {
    if bracket_index(s) >= s.len() {
        None
    } else {
        let rest = s.skip(bracket_index(s) + 1);
        Some(rest.take(bracket_index(rest)))
    }
}

/// Where the first round bracket stands: none before `i`, and at `i` a
/// bracket or the end.
pub proof fn lemma_bracket_index(s: Seq<char>, i: int)
    requires
        0 <= i <= s.len(),
        forall|j: int| 0 <= j < i ==> !is_bracket(s[j]),
        i < s.len() ==> is_bracket(s[i]),
    ensures
        bracket_index(s) == i,
    decreases i,
{
    if i > 0 {
        let t = s.skip(1);
        assert forall|j: int| 0 <= j < i - 1 implies !is_bracket(t[j]) by {
            assert(t[j] == s[j + 1]);
        }
        lemma_bracket_index(t, i - 1);
    }
}

/// The place of the first round bracket of `s` at or after `from`; the
/// length of `s` where none follows.
fn next_bracket(s: &str, from: usize) -> (r: usize)
    requires
        from <= s@.len(),
    ensures
        from <= r <= s@.len(),
        r - from == bracket_index(s@.skip(from as int)),
{
    let n = s.unicode_len();
    let mut i: usize = from;
    let ghost rest = s@.skip(from as int);
    while i < n
        invariant
            from <= i <= n,
            n == s@.len(),
            rest == s@.skip(from as int),
            forall|j: int| 0 <= j < i - from ==> !is_bracket(rest[j]),
        decreases n - i,
    {
        let c = s.get_char(i);
        assert(rest[i - from] == c);
        if c == '(' || c == ')' {
            proof {
                lemma_bracket_index(rest, i - from);
            }
            return i;
        }
        i = i + 1;
    }
    proof {
        lemma_bracket_index(rest, i - from);
    }
    i
}

/// Cuts out what stands between the first round bracket of `s` and the
/// next one.
pub fn split_second(s: &str) -> (r: Option<String>)
    ensures
        match r {
            Some(p) => second_piece(s@) == Some(p@),
            None => second_piece(s@).is_none(),
        },
{
    let n = s.unicode_len();
    assert(s@.skip(0) =~= s@);
    let a = next_bracket(s, 0);
    if a >= n {
        return None;
    }
    let b = next_bracket(s, a + 1);
    let piece = s.substring_char(a + 1, b);
    assert(s@.subrange(a + 1, b as int) =~= s@.skip(a + 1).take(b - a - 1));
    Some(piece.to_owned())
}

/// Whether `text` is among `choices`.
pub fn is_choice(choices: &Vec<String>, text: &str) -> (r: bool)
    ensures
        r == choices@.map_values(|s: String| s@).contains(text@),
{
    let ghost all = choices@.map_values(|s: String| s@);
    let mut i: usize = 0;
    while i < choices.len()
        invariant
            i <= choices.len(),
            all == choices@.map_values(|s: String| s@),
            forall|j: int| 0 <= j < i ==> all[j] != text@,
        decreases choices.len() - i,
    {
        if str_equal(choices[i].as_str(), text) {
            assert(all[i as int] == text@);
            return true;
        }
        i = i + 1;
    }
    false
}

/// The fields that the component `component` of a button shows.
pub open spec fn folder_values(b: ButtonView, folders: Seq<FolderEntry>, component: Seq<char>)
    -> Seq<UIValueView> {
    if component == "folder"@ {
        match folder_of_button(b) {
            Some(f) => seq![
                UIValueView {
                    name: "id"@,
                    display_name: "ID"@,
                    description: "ID of the folder"@,
                    ty: FieldTypeView::Label,
                    value: FieldValueView::Label(f.0),
                },
                UIValueView {
                    name: "name"@,
                    display_name: "Folder Name"@,
                    description: "Name that will appear in breadcrumbs of the stack"@,
                    ty: FieldTypeView::InputFieldString,
                    value: FieldValueView::InputFieldString(f.1),
                },
            ],
            None => Seq::empty(),
        }
    } else if component == "folder_link"@ {
        match link_of_button(b) {
            Some(id) => seq![
                UIValueView {
                    name: "id"@,
                    display_name: "ID"@,
                    description: "Folder to link to"@,
                    ty: FieldTypeView::Choice(choices_of(folders)),
                    value: FieldValueView::Choice(
                        if known(folder_ids(folders), id) {
                            choice_text(
                                folders[first_index(folder_ids(folders), id)].panel.display_name@,
                                id,
                            )
                        } else {
                            Seq::empty()
                        },
                    ),
                },
            ],
            None => Seq::empty(),
        }
    } else {
        Seq::empty()
    }
}

/// The id that a link takes from `values`: what stands in the brackets of
/// the chosen text, where that is one of the choices; else the id it had.
pub open spec fn chosen_id(folders: Seq<FolderEntry>, values: Seq<UIValueView>, id: Seq<char>)
    -> Seq<char> {
    match named_text(values, "id"@) {
        Some(s) => if choices_of(folders).contains(s) {
            match second_piece(s) {
                Some(p) => p,
                None => id,
            }
        } else {
            id
        },
        None => id,
    }
}

/// How a new name shows in the folders: the folder `id`, where it is
/// there, is called `name`; nothing else changes.
pub open spec fn folder_renamed(
    f0: Seq<FolderEntry>,
    f1: Seq<FolderEntry>,
    id: Seq<char>,
    name: Seq<char>,
) -> bool {
    if known(folder_ids(f0), id) {
        let i = first_index(folder_ids(f0), id);
        &&& folder_ids(f1) == folder_ids(f0)
        &&& f1[i].panel.display_name@ == name
        &&& raw_view(&f1[i].panel).data == raw_view(&f0[i].panel).data
        &&& raw_view(&f1[i].panel).buttons == raw_view(&f0[i].panel).buttons
        &&& forall|j: int| 0 <= j < f0.len() && j != i ==> f1[j] == f0[j]
    } else {
        f1 == f0
    }
}

/// How a new name shows in the live panel kept for the folder `id`: that
/// panel, where there is one, is called `name`, for everyone who holds it;
/// nothing else changes.
pub open spec fn panel_renamed(
    refs: Seq<FolderReference>,
    core0: SDCore,
    core1: SDCore,
    id: Seq<char>,
    name: Seq<char>,
) -> bool {
    let slot = refs[first_index(reference_ids(refs), id)].panel.slot as int;
    if known(reference_ids(refs), id) && slot < core0.buttons.panels@.len() {
        let p0 = core0.buttons.panels@;
        let p1 = core1.buttons.panels@;
        &&& unchanged_but_panels(core0, core1)
        &&& core1.current_stack == core0.current_stack
        &&& core1.buttons.cells == core0.buttons.cells
        &&& p1.len() == p0.len()
        &&& p1[slot].display_name@ == name
        &&& frame_view(p1[slot]).data == frame_view(p0[slot]).data
        &&& frame_view(p1[slot]).buttons == frame_view(p0[slot]).buttons
        &&& forall|j: int| 0 <= j < p0.len() && j != slot ==> p1[j] == p0[j]
    } else {
        core1 == core0
    }
}

/// How setting `values` on the component `component` changes a button,
/// the folders and the live panels of the core.
pub open spec fn values_set(
    refs: Seq<FolderReference>,
    b0: ButtonView,
    f0: Seq<FolderEntry>,
    core0: SDCore,
    component: Seq<char>,
    values: Seq<UIValueView>,
    b1: ButtonView,
    f1: Seq<FolderEntry>,
    core1: SDCore,
) -> bool {
    if component == "folder"@ {
        match folder_of_button(b0) {
            None => b1 == b0 && f1 == f0 && core1 == core0,
            Some(f) => match named_text(values, "name"@) {
                Some(name) => {
                    &&& b1 == without_component(b0, "folder"@).push(
                        ("folder"@, folder_component_value(f.0, name)),
                    )
                    &&& folder_renamed(f0, f1, f.0, name)
                    &&& panel_renamed(refs, core0, core1, f.0, name)
                },
                None => {
                    &&& b1 == without_component(b0, "folder"@).push(
                        ("folder"@, folder_component_value(f.0, f.1)),
                    )
                    &&& f1 == f0
                    &&& core1 == core0
                },
            },
        }
    } else if component == "folder_link"@ {
        match link_of_button(b0) {
            None => b1 == b0 && f1 == f0 && core1 == core0,
            Some(id) => {
                &&& b1 == without_component(b0, "folder_link"@).push(
                    ("folder_link"@, folder_link_value(chosen_id(f0, values, id))),
                )
                &&& f1 == f0
                &&& core1 == core0
            },
        }
    } else {
        b1 == b0 && f1 == f0 && core1 == core0
    }
}

impl FolderModule {
    /// The fields that the component `component` of `button` shows: id and
    /// name of a folder; for a link, the folder it points to among all
    /// folders.
    pub fn component_values(&self, folders: &Vec<FolderEntry>, button: &Button, component: &str)
        -> (r: Vec<UIValue>)
        ensures
            values_view(r@) == folder_values(button@, folders@, component@),
    {
        let mut out: Vec<UIValue> = Vec::new();
        if str_equal(component, FolderComponent::name()) {
            match FolderComponent::from_button(button) {
                Some(c) => {
                    out.push(
                        UIValue {
                            name: "id".to_owned(),
                            display_name: "ID".to_owned(),
                            description: "ID of the folder".to_owned(),
                            ty: UIFieldType::Label,
                            value: UIFieldValue::Label(c.id),
                        },
                    );
                    out.push(
                        UIValue {
                            name: "name".to_owned(),
                            display_name: "Folder Name".to_owned(),
                            description: "Name that will appear in breadcrumbs of the stack".to_owned(),
                            ty: UIFieldType::InputFieldString,
                            value: UIFieldValue::InputFieldString(c.name),
                        },
                    );
                },
                None => {},
            }
        } else if str_equal(component, FolderLinkComponent::name()) {
            match FolderLinkComponent::from_button(button) {
                Some(c) => {
                    let choices = list_choices(folders);
                    let choice = match find_folder(folders, c.id.as_str()) {
                        Some(i) => choice_for(
                            folders[i].panel.display_name.as_str(),
                            c.id.as_str(),
                        ),
                        None => String::new(),
                    };
                    out.push(
                        UIValue {
                            name: "id".to_owned(),
                            display_name: "ID".to_owned(),
                            description: "Folder to link to".to_owned(),
                            ty: UIFieldType::Choice(choices),
                            value: UIFieldValue::Choice(choice),
                        },
                    );
                },
                None => {},
            }
        }
        assert(values_view(out@) =~= folder_values(button@, folders@, component@));
        out
    }

    /// Takes the fields `values` into the component `component` of
    /// `button`. A new name of a folder also goes to the folder and to the
    /// live panel kept for it; a link takes the id of the chosen folder.
    pub fn set_component_value(
        &self,
        core: &mut SDCore,
        folders: &mut Vec<FolderEntry>,
        button: &mut Button,
        component: &str,
        values: &Vec<UIValue>,
    )
        ensures
            values_set(
                self.folder_references@,
                old(button)@,
                old(folders)@,
                *old(core),
                component@,
                values_view(values@),
                final(button)@,
                final(folders)@,
                *final(core),
            ),
    {
        if str_equal(component, FolderComponent::name()) {
            match FolderComponent::from_button(button) {
                None => {},
                Some(c) => {
                    let mut c = c;
                    match text_named(values, "name") {
                        None => {},
                        Some(name) => {
                            proof {
                                lemma_first_index_is_first(folder_ids(folders@), c.id@);
                                lemma_first_index_is_first(
                                    reference_ids(self.folder_references@),
                                    c.id@,
                                );
                            }
                            match get_folder(folders, c.id.as_str()) {
                                Some(folder) => {
                                    let mut folder = folder;
                                    folder.display_name = name.clone();
                                    update_folder(folders, c.id.clone(), folder);
                                },
                                None => {},
                            }
                            match find_reference(&self.folder_references, c.id.as_str()) {
                                Some(i) => {
                                    let slot = self.folder_references[i].panel.slot;
                                    if slot < core.buttons.panels.len() {
                                        let mut kept = core.buttons.panels.remove(slot);
                                        kept.display_name = name.clone();
                                        core.buttons.panels.insert(slot, kept);
                                    }
                                },
                                None => {},
                            }
                            c.name = name;
                        },
                    }
                    button.insert_component(FolderComponent::name(), c.to_value());
                },
            }
        } else if str_equal(component, FolderLinkComponent::name()) {
            match FolderLinkComponent::from_button(button) {
                None => {},
                Some(c) => {
                    let mut c = c;
                    let choices = list_choices(folders);
                    match text_named(values, "id") {
                        None => {},
                        Some(text) => {
                            if is_choice(&choices, text.as_str()) {
                                match split_second(text.as_str()) {
                                    Some(id) => {
                                        c.id = id;
                                    },
                                    None => {},
                                }
                            }
                        },
                    }
                    button.insert_component(FolderLinkComponent::name(), c.to_value());
                },
            }
        }
    }
}

/// What a module says about itself.
pub struct PluginMetadata {
    pub name: String,
    pub author: String,
    pub description: String,
    pub version: String,
    /// The features of the core that the module uses.
    pub used_features: Vec<String>,
}

impl FolderModule {
    /// What the folder module says about itself.
    pub fn metadata(&self) -> (m: PluginMetadata)
        ensures
            m.name@ == "core/folder"@,
            m.author@ == "TheJebForge"@,
            m.description@ == "Folder module, provides folder components"@,
            m.version@ == "0.1"@,
            m.used_features@.len() == 4,
            m.used_features@[0]@ == "core"@,
            m.used_features@[1]@ == "core_methods"@,
            m.used_features@[2]@ == "module_manager"@,
            m.used_features@[3]@ == "core_events"@,
    {
        let mut used_features: Vec<String> = Vec::new();
        used_features.push("core".to_owned());
        used_features.push("core_methods".to_owned());
        used_features.push("module_manager".to_owned());
        used_features.push("core_events".to_owned());
        PluginMetadata {
            name: self.name(),
            author: "TheJebForge".to_owned(),
            description: "Folder module, provides folder components".to_owned(),
            version: "0.1".to_owned(),
            used_features,
        }
    }
}

} // verus!
