//! Folders: buttons that open further panels, links to existing folders,
//! and the button that goes back up.

use crate::button::{
    component_data, has_component, str_equal, without_component, Button, ButtonView,
};
use crate::components::{ComponentDefinition, NamedDefinition};
use crate::lookup::{
    first_index, known, lemma_first_index, lemma_first_index_is_first, lemma_known_at,
    lemma_removed_stays_known,
};
use crate::device::{shown, unchanged_but_panels, SDCore, SDCoreEvent};
use crate::json::{
    is_object, json_member, json_null, json_object, json_object_of, json_string, json_string_of,
    member, null_value, object_of, string_of, string_value,
};
use crate::panel::{
    copy_raw_panel, live_view, make_panel_unique, raw_view, Panel, PanelView, RawButtonPanel,
    UniqueButton, UniquePanel,
};
use crate::stack::{frame_view, popped, pushed};
use crate::token::{is_random_name, random_name};
use serde_json::Value;
use std::collections::HashMap;
use vstd::prelude::*;
use vstd::string::StringExecFns;

verus! {

broadcast use vstd::std_specs::hash::group_hash_axioms;

/// The length of a folder id.
pub const FOLDER_ID_LENGTH: usize = 16;

/// How many ids are drawn at most in search of a free one.
pub const FOLDER_ID_DRAWS: usize = 64;

/// The component of a button that opens a folder of its own.
pub struct FolderComponent {
    pub id: String,
    pub name: String,
}

/// The component of a button that opens an existing folder.
pub struct FolderLinkComponent {
    pub id: String,
}

/// The component of a button that goes back to the previous panel.
pub struct FolderUpComponent {}

/// The data of a panel that shows a folder.
pub struct FolderStackData {
    pub folder_id: String,
}

/// A string member that may be missing: the empty text where it is, `None`
/// where the member is no string.
pub open spec fn text_or_empty(m: Option<Value>) -> Option<Seq<char>> {
    match m {
        None => Some(Seq::empty()),
        Some(v) => json_string(v),
    }
}

/// Id and name of the folder component that a JSON value holds: an object
/// with a string member `name` and, where it has a member `id`, a string
/// there.
pub open spec fn folder_component_of(v: Value) -> Option<(Seq<char>, Seq<char>)> {
    if !json_object(v) {
        None
    } else {
        match (text_or_empty(json_member(v, "id"@)), json_member(v, "name"@)) {
            (Some(id), Some(n)) => match json_string(n) {
                Some(name) => Some((id, name)),
                None => None,
            },
            _ => None,
        }
    }
}

/// The id of the folder link that a JSON value holds.
pub open spec fn folder_link_of(v: Value) -> Option<Seq<char>> {
    if !json_object(v) {
        None
    } else {
        text_or_empty(json_member(v, "id"@))
    }
}

/// The folder id of the stack data that a JSON value holds.
pub open spec fn stack_data_of(v: Value) -> Option<Seq<char>> {
    if !json_object(v) {
        None
    } else {
        match json_member(v, "folder_id"@) {
            Some(m) => json_string(m),
            None => None,
        }
    }
}

/// The JSON value of a folder component.
pub open spec fn folder_component_value(id: Seq<char>, name: Seq<char>) -> Value {
    json_object_of(seq![("id"@, json_string_of(id)), ("name"@, json_string_of(name))])
}

/// The JSON value of a folder link.
pub open spec fn folder_link_value(id: Seq<char>) -> Value {
    json_object_of(seq![("id"@, json_string_of(id))])
}

/// The JSON value of the component that goes up.
pub open spec fn folder_up_value() -> Value {
    json_object_of(Seq::empty())
}

/// The JSON value of the data of a panel that shows the folder `id`.
pub open spec fn stack_data_value(id: Seq<char>) -> Value {
    json_object_of(seq![("folder_id"@, json_string_of(id))])
}

/// Reads the string member `key` of `v`, the empty text where `v` has no
/// such member.
fn read_text_or_empty(v: &Value, key: &str) -> (r: Option<String>)
    ensures
        match r {
            Some(s) => text_or_empty(json_member(*v, key@)) == Some(s@),
            None => text_or_empty(json_member(*v, key@)).is_none(),
        },
{
    match member(v, key) {
        None => Some(String::new()),
        Some(m) => string_of(m),
    }
}

impl FolderComponent {
    /// The name of the component.
    pub fn name() -> (n: &'static str)
        ensures
            n@ == "folder"@,
    {
        "folder"
    }

    /// Reads the component out of a JSON value.
    pub fn from_value(v: &Value) -> (r: Option<FolderComponent>)
        ensures
            match r {
                Some(c) => folder_component_of(*v) == Some((c.id@, c.name@)),
                None => folder_component_of(*v).is_none(),
            },
    {
        if !is_object(v) {
            return None;
        }
        let id = read_text_or_empty(v, "id");
        let name = match member(v, "name") {
            Some(n) => string_of(n),
            None => None,
        };
        match (id, name) {
            (Some(id), Some(name)) => Some(FolderComponent { id, name }),
            _ => None,
        }
    }

    /// The component as a JSON value.
    pub fn to_value(&self) -> (v: Value)
        ensures
            v == folder_component_value(self.id@, self.name@),
    {
        let mut entries: Vec<(String, Value)> = Vec::new();
        entries.push(("id".to_owned(), string_value(self.id.as_str())));
        entries.push(("name".to_owned(), string_value(self.name.as_str())));
        assert(entries@.map_values(|e: (String, Value)| (e.0@, e.1)) =~= seq![
            ("id"@, json_string_of(self.id@)),
            ("name"@, json_string_of(self.name@)),
        ]);
        object_of(entries)
    }

    /// Reads the component of a button.
    pub fn from_button(button: &Button) -> (r: Option<FolderComponent>)
        ensures
            match r {
                Some(c) => folder_of_button(button@) == Some((c.id@, c.name@)),
                None => folder_of_button(button@).is_none(),
            },
    {
        match button.component(Self::name()) {
            Some(v) => Self::from_value(&v),
            None => None,
        }
    }
}

/// Id and name of the folder that a button opens.
pub open spec fn folder_of_button(b: ButtonView) -> Option<(Seq<char>, Seq<char>)> {
    match component_data(b, "folder"@) {
        Some(v) => folder_component_of(v),
        None => None,
    }
}

/// The id of the folder that a button links to.
pub open spec fn link_of_button(b: ButtonView) -> Option<Seq<char>> {
    match component_data(b, "folder_link"@) {
        Some(v) => folder_link_of(v),
        None => None,
    }
}

/// Whether a button goes up.
pub open spec fn goes_up(b: ButtonView) -> bool {
    match component_data(b, "folder_up"@) {
        Some(v) => json_object(v),
        None => false,
    }
}

impl FolderLinkComponent {
    /// The name of the component.
    pub fn name() -> (n: &'static str)
        ensures
            n@ == "folder_link"@,
    {
        "folder_link"
    }

    /// Reads the component out of a JSON value.
    pub fn from_value(v: &Value) -> (r: Option<FolderLinkComponent>)
        ensures
            match r {
                Some(c) => folder_link_of(*v) == Some(c.id@),
                None => folder_link_of(*v).is_none(),
            },
    {
        if !is_object(v) {
            return None;
        }
        match read_text_or_empty(v, "id") {
            Some(id) => Some(FolderLinkComponent { id }),
            None => None,
        }
    }

    /// The component as a JSON value.
    pub fn to_value(&self) -> (v: Value)
        ensures
            v == folder_link_value(self.id@),
    {
        let mut entries: Vec<(String, Value)> = Vec::new();
        entries.push(("id".to_owned(), string_value(self.id.as_str())));
        assert(entries@.map_values(|e: (String, Value)| (e.0@, e.1)) =~= seq![
            ("id"@, json_string_of(self.id@)),
        ]);
        object_of(entries)
    }

    /// Reads the component of a button.
    pub fn from_button(button: &Button) -> (r: Option<FolderLinkComponent>)
        ensures
            match r {
                Some(c) => link_of_button(button@) == Some(c.id@),
                None => link_of_button(button@).is_none(),
            },
    {
        match button.component(Self::name()) {
            Some(v) => Self::from_value(&v),
            None => None,
        }
    }
}

impl FolderUpComponent {
    /// The name of the component.
    pub fn name() -> (n: &'static str)
        ensures
            n@ == "folder_up"@,
    {
        "folder_up"
    }

    /// The component as a JSON value.
    pub fn to_value(&self) -> (v: Value)
        ensures
            v == folder_up_value(),
    {
        let entries: Vec<(String, Value)> = Vec::new();
        assert(entries@.map_values(|e: (String, Value)| (e.0@, e.1)) =~= Seq::empty());
        object_of(entries)
    }

    /// Reads the component of a button.
    pub fn from_button(button: &Button) -> (r: Option<FolderUpComponent>)
        ensures
            r.is_some() == goes_up(button@),
    {
        match button.component(Self::name()) {
            Some(v) => if is_object(&v) {
                Some(FolderUpComponent {  })
            } else {
                None
            },
            None => None,
        }
    }
}

impl FolderStackData {
    /// Reads the data out of a JSON value.
    pub fn from_value(v: &Value) -> (r: Option<FolderStackData>)
        ensures
            match r {
                Some(d) => stack_data_of(*v) == Some(d.folder_id@),
                None => stack_data_of(*v).is_none(),
            },
    {
        if !is_object(v) {
            return None;
        }
        match member(v, "folder_id") {
            Some(m) => match string_of(m) {
                Some(folder_id) => Some(FolderStackData { folder_id }),
                None => None,
            },
            None => None,
        }
    }

    /// The data as a JSON value.
    pub fn to_value(&self) -> (v: Value)
        ensures
            v == stack_data_value(self.folder_id@),
    {
        let mut entries: Vec<(String, Value)> = Vec::new();
        entries.push(("folder_id".to_owned(), string_value(self.folder_id.as_str())));
        assert(entries@.map_values(|e: (String, Value)| (e.0@, e.1)) =~= seq![
            ("folder_id"@, json_string_of(self.folder_id@)),
        ]);
        object_of(entries)
    }
}

/// A folder as it is kept with the configuration of a device.
pub struct FolderEntry {
    pub id: String,
    pub panel: RawButtonPanel,
}

/// The ids of a list of folders.
pub open spec fn folder_ids(folders: Seq<FolderEntry>) -> Seq<Seq<char>> {
    folders.map_values(|e: FolderEntry| e.id@)
}

/// The place of the folder `id` in `folders`.
pub fn find_folder(folders: &Vec<FolderEntry>, id: &str) -> (r: Option<usize>)
    ensures
        match r {
            Some(i) => i == first_index(folder_ids(folders@), id@) && known(
                folder_ids(folders@),
                id@,
            ),
            None => !known(folder_ids(folders@), id@),
        },
{
    let mut i: usize = 0;
    while i < folders.len()
        invariant
            i <= folders.len(),
            forall|j: int| 0 <= j < i ==> folder_ids(folders@)[j] != id@,
        decreases folders.len() - i,
    {
        if str_equal(folders[i].id.as_str(), id) {
            proof {
                lemma_first_index(folder_ids(folders@), id@, i as int);
            }
            return Some(i);
        }
        i = i + 1;
    }
    proof {
        lemma_first_index(folder_ids(folders@), id@, i as int);
    }
    None
}

/// A copy of the contents of the folder `id`.
pub fn get_folder(folders: &Vec<FolderEntry>, id: &str) -> (r: Option<RawButtonPanel>)
    ensures
        r.is_some() == known(folder_ids(folders@), id@),
        r matches Some(p) ==> raw_view(&p) == raw_view(
            &folders@[first_index(folder_ids(folders@), id@)].panel,
        ),
{
    match find_folder(folders, id) {
        Some(i) => Some(copy_raw_panel(&folders[i].panel)),
        None => None,
    }
}

/// A copy of every folder, in order.
pub fn list_folders(folders: &Vec<FolderEntry>) -> (r: Vec<FolderEntry>)
    ensures
        folder_ids(r@) == folder_ids(folders@),
        forall|i: int|
            0 <= i < folders@.len() ==> raw_view(&(#[trigger] r@[i]).panel) == raw_view(
                &folders@[i].panel,
            ),
{
    let mut out: Vec<FolderEntry> = Vec::new();
    let mut i: usize = 0;
    while i < folders.len()
        invariant
            i <= folders.len(),
            out@.len() == i,
            forall|j: int|
                0 <= j < i ==> (#[trigger] out@[j]).id@ == folders@[j].id@ && raw_view(
                    &out@[j].panel,
                ) == raw_view(&folders@[j].panel),
        decreases folders.len() - i,
    {
        out.push(
            FolderEntry { id: folders[i].id.clone(), panel: copy_raw_panel(&folders[i].panel) },
        );
        i = i + 1;
    }
    assert(folder_ids(out@) =~= folder_ids(folders@));
    out
}

/// Keeps `content` as the folder `id`, in place of the contents kept
/// before.
pub fn update_folder(folders: &mut Vec<FolderEntry>, id: String, content: RawButtonPanel)
    ensures
        known(folder_ids(final(folders)@), id@),
        final(folders)@[first_index(folder_ids(final(folders)@), id@)].panel == content,
        known(folder_ids(old(folders)@), id@) ==> folder_ids(final(folders)@) == folder_ids(
            old(folders)@,
        ),
        !known(folder_ids(old(folders)@), id@) ==> folder_ids(final(folders)@) == folder_ids(
            old(folders)@,
        ).push(id@),
        forall|i: int|
            0 <= i < old(folders)@.len() && i != first_index(folder_ids(old(folders)@), id@)
                ==> final(folders)@[i] == old(folders)@[i],
{
    proof {
        lemma_first_index_is_first(folder_ids(old(folders)@), id@);
    }
    match find_folder(folders, id.as_str()) {
        Some(i) => {
            folders.set(i, FolderEntry { id, panel: content });
            assert(folder_ids(folders@) =~= folder_ids(old(folders)@));
        },
        None => {
            let ghost n = folders@.len() as int;
            folders.push(FolderEntry { id, panel: content });
            assert(folder_ids(folders@) =~= folder_ids(old(folders)@).push(id@));
            proof {
                assert forall|j: int| 0 <= j < n implies folder_ids(folders@)[j] != id@ by {
                    assert(folder_ids(old(folders)@)[j] != id@);
                }
                lemma_first_index(folder_ids(folders@), id@, n);
            }
        },
    }
}

/// Takes the folder `id` out; without one, nothing changes.
pub fn delete_folder(folders: &mut Vec<FolderEntry>, id: &str)
    ensures
        final(folders)@ == (if known(folder_ids(old(folders)@), id@) {
            old(folders)@.remove(first_index(folder_ids(old(folders)@), id@))
        } else {
            old(folders)@
        }),
{
    match find_folder(folders, id) {
        Some(i) => {
            folders.remove(i);
        },
        None => {},
    }
}

/// An empty folder panel.
pub fn blank_folder() -> (p: RawButtonPanel)
    ensures
        p.display_name@ == "Folder"@,
        json_null(p.data),
        raw_view(&p).buttons == Map::<u8, ButtonView>::empty(),
{
    let p = Panel { display_name: "Folder".to_owned(), data: null_value(), buttons: HashMap::new() };
    assert(raw_view(&p).buttons =~= Map::<u8, ButtonView>::empty());
    p
}

/// Makes an empty folder under `id`, unless a folder of that id is there.
/// Says whether it did.
pub fn new_folder_named(folders: &mut Vec<FolderEntry>, id: String) -> (made: bool)
    ensures
        made == !known(folder_ids(old(folders)@), id@),
        !made ==> final(folders)@ == old(folders)@,
        made ==> {
            &&& final(folders)@.len() == old(folders)@.len() + 1
            &&& final(folders)@.drop_last() == old(folders)@
            &&& final(folders)@.last().id@ == id@
            &&& final(folders)@.last().panel.display_name@ == "Folder"@
            &&& json_null(final(folders)@.last().panel.data)
            &&& raw_view(&final(folders)@.last().panel).buttons == Map::<u8, ButtonView>::empty()
        },
{
    match find_folder(folders, id.as_str()) {
        Some(_) => false,
        None => {
            folders.push(FolderEntry { id, panel: blank_folder() });
            assert(folders@.drop_last() =~= old(folders)@);
            true
        },
    }
}

/// The ids one after the other.
pub open spec fn ids_in_a_row(ids: Seq<Seq<char>>) -> Seq<char>
    decreases ids.len(),
{
    if ids.len() == 0 {
        Seq::empty()
    } else {
        ids_in_a_row(ids.drop_last()) + ids.last()
    }
}

/// The spare id for when no drawn id is free: all the ids in a row and one
/// letter more, which is longer than any of them.
pub open spec fn spare_id(ids: Seq<Seq<char>>) -> Seq<char> {
    ids_in_a_row(ids) + seq!['a']
}

/// Whether `id` is a fresh id for folders with the ids `ids`: none of them,
/// and either a random name or the spare id. Without folders it is a
/// random name.
pub open spec fn is_fresh_id(ids: Seq<Seq<char>>, id: Seq<char>) -> bool {
    &&& !known(ids, id)
    &&& is_random_name(id, FOLDER_ID_LENGTH as int) || (ids.len() > 0 && id == spare_id(ids))
}

/// No id is longer than all the ids in a row, so the spare id is none of
/// them.
pub proof fn lemma_spare_id_is_free(ids: Seq<Seq<char>>)
    ensures
        forall|j: int| 0 <= j < ids.len() ==> (#[trigger] ids[j]).len() <= ids_in_a_row(ids).len(),
        !known(ids, spare_id(ids)),
    decreases ids.len(),
{
    if ids.len() > 0 {
        lemma_spare_id_is_free(ids.drop_last());
        assert forall|j: int| 0 <= j < ids.len() implies (#[trigger] ids[j]).len()
            <= ids_in_a_row(ids).len() by {
            if j < ids.len() - 1 {
                assert(ids.drop_last()[j] == ids[j]);
            }
        }
    }
    assert forall|j: int| 0 <= j < ids.len() implies ids[j] != spare_id(ids) by {
        assert(ids[j].len() < spare_id(ids).len());
    }
    lemma_first_index(ids, spare_id(ids), ids.len() as int);
}

/// Builds the spare id.
pub fn spare_name(folders: &Vec<FolderEntry>) -> (r: String)
    ensures
        r@ == spare_id(folder_ids(folders@)),
{
    let ghost ids = folder_ids(folders@);
    let mut name = String::new();
    let mut i: usize = 0;
    assert(ids.take(0) =~= Seq::<Seq<char>>::empty());
    assert(name@ =~= ids_in_a_row(ids.take(0)));
    while i < folders.len()
        invariant
            i <= folders.len(),
            ids == folder_ids(folders@),
            name@ == ids_in_a_row(ids.take(i as int)),
        decreases folders.len() - i,
    {
        assert(ids.take(i as int + 1).drop_last() =~= ids.take(i as int));
        assert(ids.take(i as int + 1).last() == folders@[i as int].id@);
        name.append(folders[i].id.as_str());
        i = i + 1;
    }
    assert(ids.take(i as int) =~= ids);
    proof {
        reveal_strlit("a");
    }
    name.append("a");
    assert("a"@ =~= seq!['a']);
    name
}

/// Draws a random id that no folder has. Where every draw of a bounded
/// number hits a folder, the spare id is taken, so that an id is always
/// found.
pub fn random_unique_name(folders: &Vec<FolderEntry>) -> (r: String)
    ensures
        is_fresh_id(folder_ids(folders@), r@),
{
    let mut draws: usize = 0;
    while draws < FOLDER_ID_DRAWS
        invariant
            draws <= FOLDER_ID_DRAWS,
            folders@.len() == 0 ==> draws == 0,
        decreases FOLDER_ID_DRAWS - draws,
    {
        let name = random_name(FOLDER_ID_LENGTH);
        if find_folder(folders, name.as_str()).is_none() {
            return name;
        }
        draws = draws + 1;
    }
    proof {
        lemma_spare_id_is_free(folder_ids(folders@));
    }
    spare_name(folders)
}

/// Makes an empty folder under a fresh id and returns the id.
pub fn new_folder(folders: &mut Vec<FolderEntry>) -> (id: String)
    ensures
        is_fresh_id(folder_ids(old(folders)@), id@),
        final(folders)@.len() == old(folders)@.len() + 1,
        final(folders)@.drop_last() == old(folders)@,
        final(folders)@.last().id@ == id@,
        final(folders)@.last().panel.display_name@ == "Folder"@,
        json_null(final(folders)@.last().panel.data),
        raw_view(&final(folders)@.last().panel).buttons == Map::<u8, ButtonView>::empty(),
{
    let id = random_unique_name(folders);
    let made = new_folder_named(folders, id.clone());
    id
}

/// The live panel that was opened for a folder, kept so that opening the
/// folder again shows the same panel.
pub struct FolderReference {
    pub id: String,
    pub panel: UniquePanel,
}

/// The ids of a list of references.
pub open spec fn reference_ids(refs: Seq<FolderReference>) -> Seq<Seq<char>> {
    refs.map_values(|e: FolderReference| e.id@)
}

/// The folder module: it keeps the live panels of the folders opened so
/// far.
pub struct FolderModule {
    pub folder_references: Vec<FolderReference>,
}

/// How opening the folder `id` changes references and core. A folder
/// opened before is shown again in its kept panel: the same panel, not a
/// copy. A folder opened for the first time is made live in fresh cells,
/// under `name` where one is given, with data that name the folder, and
/// its panel is kept. An unknown folder changes nothing.
pub open spec fn opened(
    refs0: Seq<FolderReference>,
    core0: SDCore,
    refs1: Seq<FolderReference>,
    core1: SDCore,
    folders: Seq<FolderEntry>,
    id: Seq<char>,
    name: Option<Seq<char>>,
) -> bool {
    &&& unchanged_but_panels(core0, core1)
    &&& if known(reference_ids(refs0), id) {
        &&& refs1 == refs0
        &&& core1.buttons == core0.buttons
        &&& core1.current_stack@ == pushed(
            core0.current_stack@,
            refs0[first_index(reference_ids(refs0), id)].panel,
        )
    } else if known(folder_ids(folders), id) {
        let folder = folders[first_index(folder_ids(folders), id)].panel;
        let h = UniquePanel { slot: core0.buttons.panels@.len() as usize };
        &&& core1.current_stack@ == pushed(core0.current_stack@, h)
        &&& core1.buttons.panels@.len() == core0.buttons.panels@.len() + 1
        &&& core1.buttons.panels@.drop_last() == core0.buttons.panels@
        &&& shown(core1.buttons@, frame_view(core1.buttons.panels@.last())) == (PanelView {
            display_name: match name {
                Some(n) => n,
                None => folder.display_name@,
            },
            data: stack_data_value(id),
            buttons: raw_view(&folder).buttons,
        })
        &&& core0.buttons@.len() <= core1.buttons@.len()
        &&& core1.buttons@.take(core0.buttons@.len() as int) == core0.buttons@
        &&& refs1.len() == refs0.len() + 1
        &&& refs1.drop_last() == refs0
        &&& refs1.last().id@ == id
        &&& refs1.last().panel == h
    } else {
        &&& refs1 == refs0
        &&& core1.buttons == core0.buttons
        &&& core1.current_stack@ == core0.current_stack@
    }
}

/// How a button put under `key` of the panel with the data `panel` shows
/// in the folders: where the data name a folder that is there, its
/// contents get the button under that key; else nothing changes.
pub open spec fn recorded(
    f0: Seq<FolderEntry>,
    f1: Seq<FolderEntry>,
    panel: Value,
    key: u8,
    button: ButtonView,
) -> bool {
    match stack_data_of(panel) {
        Some(id) => if known(folder_ids(f0), id) {
            let i = first_index(folder_ids(f0), id);
            &&& folder_ids(f1) == folder_ids(f0)
            &&& raw_view(&f1[i].panel) == (PanelView {
                buttons: raw_view(&f0[i].panel).buttons.insert(key, button),
                ..raw_view(&f0[i].panel)
            })
            &&& forall|j: int| 0 <= j < f0.len() && j != i ==> f1[j] == f0[j]
        } else {
            f1 == f0
        },
        None => f1 == f0,
    }
}

/// How a button that left `key` of the panel with the data `panel` shows
/// in the folders: where the data name a folder that is there, its
/// contents lose that key; else nothing changes.
pub open spec fn forgotten(f0: Seq<FolderEntry>, f1: Seq<FolderEntry>, panel: Value, key: u8)
    -> bool {
    match stack_data_of(panel) {
        Some(id) => if known(folder_ids(f0), id) {
            let i = first_index(folder_ids(f0), id);
            &&& folder_ids(f1) == folder_ids(f0)
            &&& raw_view(&f1[i].panel) == (PanelView {
                buttons: raw_view(&f0[i].panel).buttons.remove(key),
                ..raw_view(&f0[i].panel)
            })
            &&& forall|j: int| 0 <= j < f0.len() && j != i ==> f1[j] == f0[j]
        } else {
            f1 == f0
        },
        None => f1 == f0,
    }
}

/// Records the button under `key` in the folder that `panel` names.
pub fn record_button(folders: &mut Vec<FolderEntry>, panel: &Value, key: u8, button: Button)
    ensures
        recorded(old(folders)@, final(folders)@, *panel, key, button@),
{
    match FolderStackData::from_value(panel) {
        None => {},
        Some(data) => {
            match get_folder(folders, data.folder_id.as_str()) {
                None => {},
                Some(contents) => {
                    let mut contents = contents;
                    let ghost before = raw_view(&contents);
                    contents.buttons.insert(key, button);
                    assert(raw_view(&contents).buttons =~= before.buttons.insert(key, button@));
                    proof {
                        lemma_first_index_is_first(folder_ids(folders@), data.folder_id@);
                    }
                    update_folder(folders, data.folder_id, contents);
                },
            }
        },
    }
}

/// Takes the button under `key` out of the folder that `panel` names.
pub fn forget_button(folders: &mut Vec<FolderEntry>, panel: &Value, key: u8)
    ensures
        forgotten(old(folders)@, final(folders)@, *panel, key),
{
    match FolderStackData::from_value(panel) {
        None => {},
        Some(data) => {
            match get_folder(folders, data.folder_id.as_str()) {
                None => {},
                Some(contents) => {
                    let mut contents = contents;
                    let ghost before = raw_view(&contents);
                    contents.buttons.remove(&key);
                    assert(raw_view(&contents).buttons =~= before.buttons.remove(key));
                    proof {
                        lemma_first_index_is_first(folder_ids(folders@), data.folder_id@);
                    }
                    update_folder(folders, data.folder_id, contents);
                },
            }
        },
    }
}

/// Every entry of `after` is an entry of `before`.
pub open spec fn all_from(after: Seq<FolderEntry>, before: Seq<FolderEntry>) -> bool {
    forall|i: int| 0 <= i < after.len() ==> before.contains(#[trigger] after[i])
}

/// The ids of the folders that the buttons under the keys below `upto`
/// open as their own, in the order of the keys.
pub open spec fn child_ids(buttons: Map<u8, ButtonView>, upto: int) -> Seq<Seq<char>>
    decreases upto,
{
    if upto <= 0 {
        Seq::empty()
    } else {
        let k = (upto - 1) as u8;
        let rest = child_ids(buttons, upto - 1);
        if buttons.contains_key(k) && folder_of_button(buttons[k]).is_some() {
            rest.push(folder_of_button(buttons[k]).unwrap().0)
        } else {
            rest
        }
    }
}

/// The id of the folder that the button under `k` of the folder `e` opens
/// as its own, if it opens one.
pub open spec fn child_at(e: FolderEntry, k: u8) -> Option<Seq<char>> {
    let buttons = raw_view(&e.panel).buttons;
    if buttons.contains_key(k) && folder_of_button(buttons[k]).is_some() {
        Some(folder_of_button(buttons[k]).unwrap().0)
    } else {
        None
    }
}

/// Whether a button of a folder called `from` opens the folder `to` as its
/// own.
pub open spec fn opens(folders: Seq<FolderEntry>, from: Seq<char>, to: Seq<char>) -> bool {
    exists|j: int, k: u8|
        0 <= j < folders.len() && folders[j].id@ == from && #[trigger] child_at(folders[j], k)
            == Some(to)
}

/// Whether each id of `path` but the first is opened by a button of the
/// folder before it.
pub open spec fn is_path(folders: Seq<FolderEntry>, path: Seq<Seq<char>>) -> bool {
    path.len() >= 1 && forall|i: int|
        0 <= i < path.len() - 1 ==> opens(folders, #[trigger] path[i], path[i + 1])
}

/// Whether the id `x` is reached from `root` through folder buttons: it is
/// `root`, or a button of a folder reached from `root` opens it.
pub open spec fn reachable(folders: Seq<FolderEntry>, root: Seq<char>, x: Seq<char>) -> bool {
    exists|path: Seq<Seq<char>>| #[trigger]
        is_path(folders, path) && path[0] == root && path.last() == x
}

/// Every entry of `old` is still in `cur`, or its id is reached from
/// `root`.
pub open spec fn stays_or_reached(
    old: Seq<FolderEntry>,
    cur: Seq<FolderEntry>,
    root: Seq<char>,
) -> bool {
    forall|j: int|
        0 <= j < old.len() ==> cur.contains(#[trigger] old[j]) || reachable(old, root, old[j].id@)
}

/// Every id of `work` is reached from `root`.
pub open spec fn all_reached(old: Seq<FolderEntry>, root: Seq<char>, work: Seq<Seq<char>>) -> bool {
    forall|w: int| 0 <= w < work.len() ==> reachable(old, root, #[trigger] work[w])
}

/// For every entry of `old` that has left `cur`, each folder that its
/// buttons open has left too, or waits in `work`.
pub open spec fn children_handled(
    old: Seq<FolderEntry>,
    cur: Seq<FolderEntry>,
    work: Seq<Seq<char>>,
) -> bool {
    forall|j: int, k: u8|
        0 <= j < old.len() && (#[trigger] child_at(old[j], k)).is_some() ==> cur.contains(old[j])
            || !known(folder_ids(cur), child_at(old[j], k).unwrap()) || work.contains(
            child_at(old[j], k).unwrap(),
        )
}

/// `root` is reached from itself.
pub proof fn lemma_reachable_root(folders: Seq<FolderEntry>, root: Seq<char>)
    ensures
        reachable(folders, root, root),
{
    let path = seq![root];
    assert(is_path(folders, path));
    assert(path[0] == root && path.last() == root);
}

/// What a folder reached from `root` opens is reached from `root`.
pub proof fn lemma_reachable_step(
    folders: Seq<FolderEntry>,
    root: Seq<char>,
    x: Seq<char>,
    y: Seq<char>,
)
    requires
        reachable(folders, root, x),
        opens(folders, x, y),
    ensures
        reachable(folders, root, y),
{
    let path = choose|path: Seq<Seq<char>>| #[trigger]
        is_path(folders, path) && path[0] == root && path.last() == x;
    let longer = path.push(y);
    assert forall|i: int| 0 <= i < longer.len() - 1 implies opens(
        folders,
        #[trigger] longer[i],
        longer[i + 1],
    ) by {
        if i < path.len() - 1 {
            assert(longer[i] == path[i] && longer[i + 1] == path[i + 1]);
        } else {
            assert(longer[i] == x && longer[i + 1] == y);
        }
    }
    assert(is_path(folders, longer));
    assert(longer[0] == root && longer.last() == y);
}

/// Every id that `child_ids` lists is opened by a button under a key below
/// `upto`, and every such id is listed.
pub proof fn lemma_child_ids(e: FolderEntry, upto: int)
    requires
        0 <= upto <= 256,
    ensures
        forall|k: u8|
            (k as int) < upto && (#[trigger] child_at(e, k)).is_some() ==> child_ids(
                raw_view(&e.panel).buttons,
                upto,
            ).contains(child_at(e, k).unwrap()),
        forall|i: int|
            0 <= i < child_ids(raw_view(&e.panel).buttons, upto).len() ==> exists|k: u8|
                #[trigger] child_at(e, k) == Some(
                    (#[trigger] child_ids(raw_view(&e.panel).buttons, upto)[i]),
                ),
    decreases upto,
{
    let buttons = raw_view(&e.panel).buttons;
    if upto > 0 {
        lemma_child_ids(e, upto - 1);
        let rest = child_ids(buttons, upto - 1);
        let all = child_ids(buttons, upto);
        let last = (upto - 1) as u8;
        assert forall|k: u8| (k as int) < upto && (#[trigger] child_at(e, k)).is_some() implies all.contains(
            child_at(e, k).unwrap(),
        ) by {
            if (k as int) < upto - 1 {
                assert(rest.contains(child_at(e, k).unwrap()));
                let i = choose|i: int| 0 <= i < rest.len() && rest[i] == child_at(e, k).unwrap();
                assert(all[i] == rest[i]);
            } else {
                assert(k == last);
                assert(all[all.len() - 1] == child_at(e, k).unwrap());
            }
        }
        assert forall|i: int| 0 <= i < all.len() implies exists|k: u8| #[trigger]
            child_at(e, k) == Some((#[trigger] all[i])) by {
            if i < rest.len() {
                assert(all[i] == rest[i]);
                let k = choose|k: u8| #[trigger] child_at(e, k) == Some(rest[i]);
                assert(child_at(e, k) == Some(all[i]));
            } else {
                assert(child_at(e, last) == Some(all[i]));
            }
        }
    }
}

/// One step of the deletion where the id in turn names no folder: it
/// leaves the line, and what holds of the folders holds on.
pub proof fn lemma_sweep_skips(
    old: Seq<FolderEntry>,
    cur: Seq<FolderEntry>,
    work: Seq<Seq<char>>,
    root: Seq<char>,
)
    requires
        work.len() > 0,
        !known(folder_ids(cur), work.last()),
        children_handled(old, cur, work),
        all_reached(old, root, work),
    ensures
        children_handled(old, cur, work.drop_last()),
        all_reached(old, root, work.drop_last()),
{
    let rest = work.drop_last();
    assert forall|j: int, k: u8|
        0 <= j < old.len() && (#[trigger] child_at(old[j], k)).is_some() implies cur.contains(
        old[j],
    ) || !known(folder_ids(cur), child_at(old[j], k).unwrap()) || rest.contains(
        child_at(old[j], k).unwrap(),
    ) by {
        let c = child_at(old[j], k).unwrap();
        if !cur.contains(old[j]) && known(folder_ids(cur), c) {
            assert(work.contains(c));
            let w = choose|w: int| 0 <= w < work.len() && work[w] == c;
            assert(w < rest.len());
            assert(rest[w] == c);
        }
    }
    assert forall|w: int| 0 <= w < rest.len() implies reachable(old, root, #[trigger] rest[w]) by {
        assert(rest[w] == work[w]);
    }
}

/// One step of the deletion where the id in turn names the folder at `i`:
/// the folder leaves, the ids that its buttons open get in line, the id
/// itself gets in line again, and what holds of the folders holds on.
pub proof fn lemma_sweep_removes(
    old: Seq<FolderEntry>,
    cur: Seq<FolderEntry>,
    i: int,
    work: Seq<Seq<char>>,
    root: Seq<char>,
)
    requires
        work.len() > 0,
        0 <= i < cur.len(),
        cur[i].id@ == work.last(),
        all_from(cur, old),
        stays_or_reached(old, cur, root),
        children_handled(old, cur, work),
        all_reached(old, root, work),
    ensures
        stays_or_reached(old, cur.remove(i), root),
        children_handled(
            old,
            cur.remove(i),
            work.drop_last() + child_ids(raw_view(&cur[i].panel).buttons, 256).push(work.last()),
        ),
        all_reached(
            old,
            root,
            work.drop_last() + child_ids(raw_view(&cur[i].panel).buttons, 256).push(work.last()),
        ),
{
    let e = cur[i];
    let next = work.last();
    let rest = work.drop_last();
    let kids = child_ids(raw_view(&e.panel).buttons, 256);
    let less = cur.remove(i);
    let line = rest + kids.push(next);
    lemma_child_ids(e, 256);
    assert(reachable(old, root, next));
    assert(old.contains(e));
    let j0 = choose|j0: int| 0 <= j0 < old.len() && old[j0] == e;
    assert forall|j: int| 0 <= j < old.len() implies less.contains(#[trigger] old[j]) || reachable(
        old,
        root,
        old[j].id@,
    ) by {
        if cur.contains(old[j]) && old[j] != e {
            let x = choose|x: int| 0 <= x < cur.len() && cur[x] == old[j];
            if x < i {
                assert(less[x] == cur[x]);
            } else {
                assert(less[x - 1] == cur[x]);
            }
        }
    }
    assert(folder_ids(less) =~= folder_ids(cur).remove(i));
    assert forall|j: int, k: u8|
        0 <= j < old.len() && (#[trigger] child_at(old[j], k)).is_some() implies less.contains(
        old[j],
    ) || !known(folder_ids(less), child_at(old[j], k).unwrap()) || line.contains(
        child_at(old[j], k).unwrap(),
    ) by {
        let c = child_at(old[j], k).unwrap();
        if !less.contains(old[j]) && known(folder_ids(less), c) {
            lemma_removed_stays_known(folder_ids(cur), i, c);
            if old[j] == e {
                assert(kids.contains(c));
                let x = choose|x: int| 0 <= x < kids.len() && kids[x] == c;
                assert(line[rest.len() + x] == c);
            } else {
                if cur.contains(old[j]) {
                    let x = choose|x: int| 0 <= x < cur.len() && cur[x] == old[j];
                    if x < i {
                        assert(less[x] == cur[x]);
                    } else {
                        assert(less[x - 1] == cur[x]);
                    }
                }
                assert(work.contains(c));
                let w = choose|w: int| 0 <= w < work.len() && work[w] == c;
                if w < rest.len() {
                    assert(line[w] == c);
                } else {
                    assert(line[line.len() - 1] == c);
                }
            }
        }
    }
    assert forall|w: int| 0 <= w < line.len() implies reachable(old, root, #[trigger] line[w]) by {
        if w < rest.len() {
            assert(line[w] == work[w]);
        } else if w < rest.len() + kids.len() {
            let x = w - rest.len();
            assert(line[w] == kids[x]);
            let k = choose|k: u8| #[trigger] child_at(e, k) == Some(kids[x]);
            assert(child_at(old[j0], k) == Some(kids[x]));
            assert(opens(old, next, kids[x]));
            lemma_reachable_step(old, root, next, kids[x]);
        } else {
            assert(line[w] == next);
        }
    }
}

/// Where the root has left, and with every folder that has left the
/// folders that its buttons open have left too, every id at the end of a
/// path from the root has left.
pub proof fn lemma_reached_has_left(
    old: Seq<FolderEntry>,
    cur: Seq<FolderEntry>,
    root: Seq<char>,
    path: Seq<Seq<char>>,
)
    requires
        is_path(old, path),
        path[0] == root,
        !known(folder_ids(cur), root),
        children_handled(old, cur, Seq::empty()),
    ensures
        !known(folder_ids(cur), path.last()),
    decreases path.len(),
{
    if path.len() > 1 {
        let before = path.drop_last();
        assert forall|i: int| 0 <= i < before.len() - 1 implies opens(
            old,
            #[trigger] before[i],
            before[i + 1],
        ) by {
            assert(before[i] == path[i] && before[i + 1] == path[i + 1]);
        }
        lemma_reached_has_left(old, cur, root, before);
        let x = before.last();
        let y = path.last();
        assert(x == path[path.len() - 2]);
        assert(opens(old, path[path.len() - 2], path[path.len() - 2 + 1]));
        let (j, k) = choose|j: int, k: u8|
            0 <= j < old.len() && old[j].id@ == x && #[trigger] child_at(old[j], k) == Some(y);
        if cur.contains(old[j]) {
            let c = choose|c: int| 0 <= c < cur.len() && cur[c] == old[j];
            assert(folder_ids(cur)[c] == x);
            lemma_known_at(folder_ids(cur), c);
        }
        assert(!Seq::<Seq<char>>::empty().contains(y));
    }
}

/// The folders that are left when the ids waiting in `work` are deleted,
/// the last of them first, and with each deleted folder the ids of the
/// folders that its buttons open are put in line to be deleted too.
pub open spec fn swept(folders: Seq<FolderEntry>, work: Seq<Seq<char>>) -> Seq<FolderEntry>
    decreases folders.len(), work.len(),
{
    if work.len() == 0 {
        folders
    } else if 0 <= first_index(folder_ids(folders), work.last()) < folders.len() {
        let i = first_index(folder_ids(folders), work.last());
        swept(
            folders.remove(i),
            work.drop_last() + child_ids(raw_view(&folders[i].panel).buttons, 256).push(
                work.last(),
            ),
        )
    } else {
        swept(folders, work.drop_last())
    }
}

/// The texts of a list of strings.
pub open spec fn texts_of(work: Seq<String>) -> Seq<Seq<char>> {
    work.map_values(|s: String| s@)
}

/// What deleting the folder `id` with the folders below it leaves of the
/// folders `f0`: no folder whose id is reached from `id` through folder
/// buttons; every folder whose id is not reached; nothing that was not
/// there; the folders that stay in the order that `swept` gives.
pub open spec fn deleted_below(f0: Seq<FolderEntry>, f1: Seq<FolderEntry>, id: Seq<char>) -> bool {
    &&& forall|x: Seq<char>| #[trigger] reachable(f0, id, x) ==> !known(folder_ids(f1), x)
    &&& stays_or_reached(f0, f1, id)
    &&& all_from(f1, f0)
    &&& f1 == swept(f0, seq![id])
    &&& !known(folder_ids(f1), id)
    &&& f1.len() <= f0.len()
    &&& !known(folder_ids(f0), id) ==> f1 == f0
}

/// Deletes the folder `id` and, in turn, every folder that a button of a
/// deleted folder opens as its own: exactly the folders whose ids are
/// reached from `id` through folder buttons leave, and the others stay.
pub fn delete_folder_recursively(folders: &mut Vec<FolderEntry>, id: &str)
    ensures
        deleted_below(old(folders)@, final(folders)@, id@),
{
    let mut work: Vec<String> = Vec::new();
    work.push(id.to_owned());
    assert(work@[0]@ == id@);
    assert(texts_of(work@) =~= seq![id@]);
    proof {
        lemma_reachable_root(old(folders)@, id@);
        assert forall|j: int| 0 <= j < folders@.len() implies folders@.contains(
            #[trigger] old(folders)@[j],
        ) by {
            assert(folders@[j] == old(folders)@[j]);
        }
    }
    while work.len() > 0
        invariant
            stays_or_reached(old(folders)@, folders@, id@),
            children_handled(old(folders)@, folders@, texts_of(work@)),
            all_reached(old(folders)@, id@, texts_of(work@)),
            all_from(folders@, old(folders)@),
            folders@.len() <= old(folders)@.len(),
            swept(folders@, texts_of(work@)) == swept(old(folders)@, seq![id@]),
            !known(folder_ids(old(folders)@), id@) ==> folders@ == old(folders)@ && forall|w: int|
                0 <= w < work@.len() ==> (#[trigger] work@[w])@ == id@,
            !known(folder_ids(folders@), id@) || exists|w: int|
                0 <= w < work@.len() && (#[trigger] work@[w])@ == id@,
        decreases folders@.len(), work@.len(),
    {
        let ghost work0 = work@;
        let ghost folders0 = folders@;
        let next = work.pop().unwrap();
        proof {
            assert(texts_of(work0).last() == next@);
            assert(texts_of(work0).drop_last() =~= texts_of(work@));
            lemma_first_index_is_first(folder_ids(folders0), next@);
        }
        match find_folder(folders, next.as_str()) {
            None => {
                proof {
                    lemma_sweep_skips(old(folders)@, folders@, texts_of(work0), id@);
                    if known(folder_ids(folders@), id@) {
                        let w = choose|w: int| 0 <= w < work0.len() && (#[trigger] work0[w])@ == id@;
                        assert(w < work@.len());
                        assert(work@[w] == work0[w]);
                    }
                }
            },
            Some(i) => {
                proof {
                    assert(folder_ids(folders0)[i as int] == next@);
                    lemma_sweep_removes(old(folders)@, folders0, i as int, texts_of(work0), id@);
                }
                let entry = folders.remove(i);
                proof {
                    assert(work0[work0.len() - 1] == next);
                    assert forall|j: int| 0 <= j < folders@.len() implies old(folders)@.contains(
                        #[trigger] folders@[j],
                    ) by {
                        if j < i {
                            assert(folders@[j] == folders0[j]);
                        } else {
                            assert(folders@[j] == folders0[j + 1]);
                        }
                    }
                }
                let ghost base = work@;
                let ghost buttons = raw_view(&entry.panel).buttons;
                let mut k: usize = 0;
                assert(texts_of(work@) =~= texts_of(base) + child_ids(buttons, 0));
                while k < 256
                    invariant
                        k <= 256,
                        buttons == raw_view(&entry.panel).buttons,
                        base.len() <= work@.len(),
                        work@.take(base.len() as int) == base,
                        texts_of(work@) == texts_of(base) + child_ids(buttons, k as int),
                    decreases 256 - k,
                {
                    let key: u8 = k as u8;
                    let ghost before = texts_of(work@);
                    match entry.panel.buttons.get(&key) {
                        Some(b) => match FolderComponent::from_button(b) {
                            Some(c) => {
                                work.push(c.id);
                                assert(work@.take(base.len() as int) =~= base);
                                assert(texts_of(work@) =~= before.push(c.id@));
                            },
                            None => {},
                        },
                        None => {},
                    }
                    assert(texts_of(work@) =~= texts_of(base) + child_ids(buttons, k as int + 1));
                    k = k + 1;
                }
                let ghost grown = work@;
                work.push(next);
                proof {
                    assert(texts_of(work@) =~= texts_of(grown).push(next@));
                    assert(texts_of(work@) =~= texts_of(base) + child_ids(buttons, 256).push(
                        next@,
                    ));
                    if next@ == id@ {
                        assert(work@[work@.len() - 1]@ == id@);
                    } else if known(folder_ids(folders@), id@) {
                        assert(folder_ids(folders@) =~= folder_ids(folders0).remove(i as int));
                        lemma_removed_stays_known(folder_ids(folders0), i as int, id@);
                        let w = choose|w: int| 0 <= w < work0.len() && (#[trigger] work0[w])@ == id@;
                        assert(w < base.len());
                        assert(base[w] == work0[w]);
                        assert(grown.take(base.len() as int)[w] == grown[w]);
                        assert(work@[w] == grown[w]);
                    }
                }
            },
        }
    }
    assert(texts_of(work@) =~= Seq::<Seq<char>>::empty());
    proof {
        assert forall|x: Seq<char>| #[trigger]
            reachable(old(folders)@, id@, x) implies !known(folder_ids(folders@), x) by {
            let path = choose|path: Seq<Seq<char>>| #[trigger]
                is_path(old(folders)@, path) && path[0] == id@ && path.last() == x;
            lemma_reached_has_left(old(folders)@, folders@, id@, path);
        }
    }
}

/// Takes a button that left `key` of `panel` out of the folders.
pub fn forget_deleted(
    core: &SDCore,
    folders: &mut Vec<FolderEntry>,
    key: u8,
    panel: UniquePanel,
    deleted_button: UniqueButton,
)
    ensures
        button_deleted(*core, old(folders)@, key, panel, deleted_button, final(folders)@),
{
    match core.buttons.panel(panel) {
        Some(p) => {
            forget_button(folders, &p.data, key);
        },
        None => {},
    }
    let ghost mid = folders@;
    if deleted_button.cell < core.buttons.len() {
        let b = core.buttons.button_to_raw(deleted_button);
        match FolderComponent::from_button(&b) {
            Some(c) => {
                delete_folder_recursively(folders, c.id.as_str());
                proof {
                    assert(folder_ids(mid) == folder_ids(old(folders)@));
                    assert forall|i: int| 0 <= i < folders@.len() implies known(
                        folder_ids(old(folders)@),
                        #[trigger] folder_ids(folders@)[i],
                    ) by {
                        assert(mid.contains(folders@[i]));
                        let j = choose|j: int| 0 <= j < mid.len() && mid[j] == folders@[i];
                        assert(folder_ids(mid)[j] == folder_ids(folders@)[i]);
                        lemma_known_at(folder_ids(mid), j);
                    }
                    assert(mid.len() == folder_ids(mid).len());
                    assert(old(folders)@.len() == folder_ids(old(folders)@).len());
                    assert(forgotten_then_swept(
                        old(folders)@,
                        mid,
                        folders@,
                        *core,
                        panel,
                        key,
                        c.id@,
                    ));
                    let id = folder_of_button(core.buttons@[deleted_button.cell as int]).unwrap().0;
                    assert(id == c.id@);
                    assert(exists|mid: Seq<FolderEntry>| #[trigger]
                        forgotten_then_swept(old(folders)@, mid, folders@, *core, panel, key, id));
                    assert(forall|i: int|
                        0 <= i < folders@.len() ==> known(
                            folder_ids(old(folders)@),
                            #[trigger] folder_ids(folders@)[i],
                        ));
                }
            },
            None => {},
        }
    }
}

/// The place of the reference kept for the folder `id`.
pub fn find_reference(refs: &Vec<FolderReference>, id: &str) -> (r: Option<usize>)
    ensures
        match r {
            Some(i) => i == first_index(reference_ids(refs@), id@) && known(
                reference_ids(refs@),
                id@,
            ),
            None => !known(reference_ids(refs@), id@),
        },
{
    let mut i: usize = 0;
    while i < refs.len()
        invariant
            i <= refs.len(),
            forall|j: int| 0 <= j < i ==> reference_ids(refs@)[j] != id@,
        decreases refs.len() - i,
    {
        if str_equal(refs[i].id.as_str(), id) {
            proof {
                lemma_first_index(reference_ids(refs@), id@, i as int);
            }
            return Some(i);
        }
        i = i + 1;
    }
    proof {
        lemma_first_index(reference_ids(refs@), id@, i as int);
    }
    None
}

/// The folders `f1` come from `f0` in two steps: the button under `key` is
/// taken out of the folder that `panel` shows, which gives `mid`, and then
/// the folder `id` is deleted with the folders below it.
pub open spec fn forgotten_then_swept(
    f0: Seq<FolderEntry>,
    mid: Seq<FolderEntry>,
    f1: Seq<FolderEntry>,
    core0: SDCore,
    panel: UniquePanel,
    key: u8,
    id: Seq<char>,
) -> bool {
    &&& if panel.slot < core0.buttons.panels@.len() {
        forgotten(f0, mid, core0.buttons.panels@[panel.slot as int].data, key)
    } else {
        mid == f0
    }
    &&& deleted_below(mid, f1, id)
}

/// How a button that left `key` of `panel` shows in the folders: it is
/// taken out of the folder that the panel shows, and where it opened a
/// folder of its own, that folder is deleted with the folders below it.
pub open spec fn button_deleted(
    core0: SDCore,
    f0: Seq<FolderEntry>,
    key: u8,
    panel: UniquePanel,
    deleted_button: UniqueButton,
    f1: Seq<FolderEntry>,
) -> bool {
    if deleted_button.cell < core0.buttons@.len() && folder_of_button(
        core0.buttons@[deleted_button.cell as int],
    ).is_some() {
        let id = folder_of_button(core0.buttons@[deleted_button.cell as int]).unwrap().0;
        &&& !known(folder_ids(f1), id)
        &&& f1.len() <= f0.len()
        &&& forall|i: int| 0 <= i < f1.len() ==> known(folder_ids(f0), #[trigger] folder_ids(f1)[i])
        &&& exists|mid: Seq<FolderEntry>|
            #[trigger] forgotten_then_swept(f0, mid, f1, core0, panel, key, id)
    } else if panel.slot < core0.buttons.panels@.len() {
        forgotten(f0, f1, core0.buttons.panels@[panel.slot as int].data, key)
    } else {
        f1 == f0
    }
}

/// What an event leaves behind: see `FolderModule::event`.
pub open spec fn event_done(
    m0: FolderModule,
    core0: SDCore,
    f0: Seq<FolderEntry>,
    event: SDCoreEvent,
    m1: FolderModule,
    core1: SDCore,
    f1: Seq<FolderEntry>,
) -> bool {
    match event {
        SDCoreEvent::ButtonAction { key, pressed_button } => {
            &&& f1 == f0
            &&& if pressed_button.cell >= core0.buttons@.len() {
                m1 == m0 && core1 == core0
            } else {
                let b = core0.buttons@[pressed_button.cell as int];
                if goes_up(b) {
                    &&& m1 == m0
                    &&& unchanged_but_panels(core0, core1)
                    &&& core1.buttons == core0.buttons
                    &&& core1.current_stack@ == popped(core0.current_stack@)
                } else {
                    match folder_of_button(b) {
                        Some(f) => opened(
                            m0.folder_references@,
                            core0,
                            m1.folder_references@,
                            core1,
                            f0,
                            f.0,
                            Some(f.1),
                        ),
                        None => match link_of_button(b) {
                            Some(id) => opened(
                                m0.folder_references@,
                                core0,
                                m1.folder_references@,
                                core1,
                                f0,
                                id,
                                None,
                            ),
                            None => m1 == m0 && core1 == core0,
                        },
                    }
                }
            }
        },
        SDCoreEvent::ButtonAdded { key, panel, added_button } => {
            &&& m1 == m0
            &&& core1 == core0
            &&& if added_button.cell >= core0.buttons@.len() || panel.slot
                >= core0.buttons.panels@.len() {
                f1 == f0
            } else {
                recorded(
                    f0,
                    f1,
                    core0.buttons.panels@[panel.slot as int].data,
                    key,
                    core0.buttons@[added_button.cell as int],
                )
            }
        },
        SDCoreEvent::ButtonUpdated { key, panel, new_button, old_button } => {
            &&& m1 == m0
            &&& core1 == core0
            &&& if new_button.cell >= core0.buttons@.len() || panel.slot
                >= core0.buttons.panels@.len() {
                f1 == f0
            } else {
                recorded(
                    f0,
                    f1,
                    core0.buttons.panels@[panel.slot as int].data,
                    key,
                    core0.buttons@[new_button.cell as int],
                )
            }
        },
        SDCoreEvent::ButtonDeleted { key, panel, deleted_button } => {
            &&& m1 == m0
            &&& core1 == core0
            &&& button_deleted(core0, f0, key, panel, deleted_button, f1)
        },
    }
}

/// How adding the component `name` changes a button and the folders.
pub open spec fn component_added(
    b0: ButtonView,
    f0: Seq<FolderEntry>,
    name: Seq<char>,
    b1: ButtonView,
    f1: Seq<FolderEntry>,
) -> bool {
    if name == "folder"@ {
        if has_component(b0, "folder_link"@) {
            b1 == b0 && f1 == f0
        } else {
            &&& f1.len() == f0.len() + 1
            &&& f1.drop_last() == f0
            &&& is_fresh_id(folder_ids(f0), f1.last().id@)
            &&& f1.last().panel.display_name@ == "Folder"@
            &&& json_null(f1.last().panel.data)
            &&& raw_view(&f1.last().panel).buttons == Map::<u8, ButtonView>::empty()
            &&& b1 == without_component(b0, "folder"@).push(
                ("folder"@, folder_component_value(f1.last().id@, "Folder"@)),
            )
        }
    } else if name == "folder_link"@ {
        &&& f1 == f0
        &&& b1 == if has_component(b0, "folder"@) {
            b0
        } else {
            without_component(b0, "folder_link"@).push(
                ("folder_link"@, folder_link_value(Seq::empty())),
            )
        }
    } else if name == "folder_up"@ {
        &&& f1 == f0
        &&& b1 == without_component(b0, "folder_up"@).push(
            ("folder_up"@, folder_up_value()),
        )
    } else {
        b1 == b0 && f1 == f0
    }
}

/// How removing the component `name` changes a button and the folders.
pub open spec fn component_removed(
    b0: ButtonView,
    f0: Seq<FolderEntry>,
    name: Seq<char>,
    b1: ButtonView,
    f1: Seq<FolderEntry>,
) -> bool {
    if name == "folder"@ {
        &&& b1 == without_component(b0, "folder"@)
        &&& match folder_of_button(b0) {
            Some(f) => deleted_below(f0, f1, f.0),
            None => f1 == f0,
        }
    } else if name == "folder_link"@ || name == "folder_up"@ {
        b1 == without_component(b0, name) && f1 == f0
    } else {
        b1 == b0 && f1 == f0
    }
}

impl Default for FolderModule {
    fn default() -> (m: FolderModule)
        ensures
            m.folder_references@.len() == 0,
    {
        FolderModule::new()
    }
}

impl FolderModule {
    /// A module that has opened no folder yet.
    pub fn new() -> (m: FolderModule)
        ensures
            m.folder_references@.len() == 0,
    {
        FolderModule { folder_references: Vec::new() }
    }

    /// The name of the module.
    pub fn name(&self) -> (n: String)
        ensures
            n@ == "core/folder"@,
    {
        "core/folder".to_owned()
    }

    /// The components whose events the module wants.
    pub fn listening_for(&self) -> (names: Vec<String>)
        ensures
            names@.len() == 3,
            names@[0]@ == "folder"@,
            names@[1]@ == "folder_link"@,
            names@[2]@ == "folder_up"@,
    {
        let mut names: Vec<String> = Vec::new();
        names.push(FolderComponent::name().to_owned());
        names.push(FolderLinkComponent::name().to_owned());
        names.push(FolderUpComponent::name().to_owned());
        names
    }

    /// Opens the folder `id` on `core`, under `name` where one is given.
    pub fn open_folder(
        &mut self,
        core: &mut SDCore,
        folders: &Vec<FolderEntry>,
        id: &str,
        name: Option<String>,
    )
        ensures
            opened(
                old(self).folder_references@,
                *old(core),
                final(self).folder_references@,
                *final(core),
                folders@,
                id@,
                match name {
                    Some(n) => Some(n@),
                    None => None,
                },
            ),
    {
        match find_reference(&self.folder_references, id) {
            Some(i) => {
                core.current_stack.push(self.folder_references[i].panel);
            },
            None => match get_folder(folders, id) {
                None => {},
                Some(contents) => {
                    let mut contents = contents;
                    let ghost buttons = raw_view(&contents).buttons;
                    match name {
                        Some(n) => {
                            contents.display_name = n;
                        },
                        None => {},
                    }
                    contents.data = (FolderStackData { folder_id: id.to_owned() }).to_value();
                    assert(raw_view(&contents).buttons =~= buttons);
                    let panel = make_panel_unique(&mut core.buttons, &contents);
                    assert(shown(core.buttons@, frame_view(panel)).buttons =~= live_view(
                        core.buttons@,
                        &panel,
                    ).buttons);
                    let h = core.buttons.make_panel_live(panel);
                    core.current_stack.push(h);
                    self.folder_references.push(FolderReference { id: id.to_owned(), panel: h });
                    assert(self.folder_references@.drop_last() =~= old(self).folder_references@);
                    assert(core.buttons.panels@.drop_last() =~= old(core).buttons.panels@);
                },
            },
        }
    }

    /// Handles an event of the core.
    ///
    /// A pressed or released button that goes up pops the stack, unless
    /// only the root is left; one that opens a folder, of its own or by
    /// link, pushes the panel of that folder. A button added to or changed
    /// in a panel that shows a folder is recorded in the folder; a deleted
    /// one is taken out of it, and where it opened a folder of its own,
    /// that folder is deleted with the folders below it. An event about a
    /// cell or a panel that the core does not have changes nothing.
    pub fn event(&mut self, core: &mut SDCore, folders: &mut Vec<FolderEntry>, event: SDCoreEvent)
        ensures
            event_done(
                *old(self),
                *old(core),
                old(folders)@,
                event,
                *final(self),
                *final(core),
                final(folders)@,
            ),
    {
        match event {
            SDCoreEvent::ButtonAdded { key, panel, added_button } => {
                if added_button.cell < core.buttons.len() {
                    match core.buttons.panel(panel) {
                        Some(p) => {
                            let b = core.buttons.button_to_raw(added_button);
                            record_button(folders, &p.data, key, b);
                        },
                        None => {},
                    }
                }
            },
            SDCoreEvent::ButtonUpdated { key, panel, new_button, old_button } => {
                if new_button.cell < core.buttons.len() {
                    match core.buttons.panel(panel) {
                        Some(p) => {
                            let b = core.buttons.button_to_raw(new_button);
                            record_button(folders, &p.data, key, b);
                        },
                        None => {},
                    }
                }
            },
            SDCoreEvent::ButtonDeleted { key, panel, deleted_button } => {
                forget_deleted(core, folders, key, panel, deleted_button);
            },
            SDCoreEvent::ButtonAction { key, pressed_button } => {
                if pressed_button.cell < core.buttons.len() {
                    let b = core.buttons.button_to_raw(pressed_button);
                    if FolderUpComponent::from_button(&b).is_some() {
                        core.current_stack.pop();
                    } else {
                        match FolderComponent::from_button(&b) {
                            Some(folder) => {
                                self.open_folder(core, folders, folder.id.as_str(), Some(folder.name));
                            },
                            None => match FolderLinkComponent::from_button(&b) {
                                Some(link) => {
                                    self.open_folder(core, folders, link.id.as_str(), None);
                                },
                                None => {},
                            },
                        }
                    }
                }
            },
        }
    }

    /// Adds the component `name` to a button. A folder component comes
    /// with a new empty folder, and not onto a button that links to one; a
    /// link not onto a button that has a folder of its own.
    pub fn add_component(&self, folders: &mut Vec<FolderEntry>, button: &mut Button, name: &str)
        ensures
            component_added(old(button)@, old(folders)@, name@, final(button)@, final(folders)@),
    {
        if str_equal(name, FolderComponent::name()) {
            if !button.contains(FolderLinkComponent::name()) {
                let id = new_folder(folders);
                let component = FolderComponent { id, name: "Folder".to_owned() };
                button.insert_component(FolderComponent::name(), component.to_value());
            }
        } else if str_equal(name, FolderLinkComponent::name()) {
            if !button.contains(FolderComponent::name()) {
                let component = FolderLinkComponent { id: String::new() };
                button.insert_component(FolderLinkComponent::name(), component.to_value());
            }
        } else if str_equal(name, FolderUpComponent::name()) {
            let component = FolderUpComponent {  };
            button.insert_component(FolderUpComponent::name(), component.to_value());
        }
    }

    /// Removes the component `name` from a button. With a folder component
    /// goes its folder, and the folders below it.
    pub fn remove_component(&self, folders: &mut Vec<FolderEntry>, button: &mut Button, name: &str)
        ensures
            component_removed(old(button)@, old(folders)@, name@, final(button)@, final(folders)@),
    {
        if str_equal(name, FolderComponent::name()) {
            match FolderComponent::from_button(button) {
                Some(c) => {
                    delete_folder_recursively(folders, c.id.as_str());
                },
                None => {},
            }
            button.remove_component(FolderComponent::name());
        } else if str_equal(name, FolderLinkComponent::name()) {
            button.remove_component(FolderLinkComponent::name());
        } else if str_equal(name, FolderUpComponent::name()) {
            button.remove_component(FolderUpComponent::name());
        }
    }
}

/// `b` with the component `name` of `reference`, where that has one.
pub open spec fn copied(b: ButtonView, reference: ButtonView, name: Seq<char>) -> ButtonView {
    match component_data(reference, name) {
        Some(v) => without_component(b, name).push((name, v)),
        None => b,
    }
}

/// Copies the component `name` of `reference` onto `button`, where
/// `reference` has one.
pub fn straight_copy(reference: &Button, button: &mut Button, name: &str)
    ensures
        final(button)@ == copied(old(button)@, reference@, name@),
{
    match reference.component(name) {
        Some(v) => {
            button.insert_component(name, v);
        },
        None => {},
    }
}

/// How pasting `reference` changes a button and the folders: link and
/// up components are copied as they are; a folder component is copied
/// under a fresh id, with a copy of the contents of the folder.
pub open spec fn component_pasted(
    reference: ButtonView,
    b0: ButtonView,
    f0: Seq<FolderEntry>,
    b1: ButtonView,
    f1: Seq<FolderEntry>,
) -> bool {
    let plain = copied(copied(b0, reference, "folder_link"@), reference, "folder_up"@);
    match folder_of_button(reference) {
        None => b1 == plain && f1 == f0,
        Some(f) => {
            &&& f1.len() == f0.len() + 1
            &&& f1.drop_last() == f0
            &&& is_fresh_id(folder_ids(f0), f1.last().id@)
            &&& if known(folder_ids(f0), f.0) {
                raw_view(&f1.last().panel) == raw_view(&f0[first_index(folder_ids(f0), f.0)].panel)
            } else {
                f1.last().panel.display_name@ == "Folder"@ && json_null(f1.last().panel.data)
                    && raw_view(&f1.last().panel).buttons == Map::<u8, ButtonView>::empty()
            }
            &&& b1 == without_component(plain, "folder"@).push(
                ("folder"@, folder_component_value(f1.last().id@, f.1)),
            )
        },
    }
}

impl FolderModule {
    /// Pastes the folder components of `reference_button` onto
    /// `new_button`.
    pub fn paste_component(
        &self,
        folders: &mut Vec<FolderEntry>,
        reference_button: &Button,
        new_button: &mut Button,
    )
        ensures
            component_pasted(
                reference_button@,
                old(new_button)@,
                old(folders)@,
                final(new_button)@,
                final(folders)@,
            ),
    {
        straight_copy(reference_button, new_button, FolderLinkComponent::name());
        straight_copy(reference_button, new_button, FolderUpComponent::name());
        match FolderComponent::from_button(reference_button) {
            None => {},
            Some(component) => {
                let new_name = random_unique_name(folders);
                let reference_folder = match get_folder(folders, component.id.as_str()) {
                    Some(p) => p,
                    None => blank_folder(),
                };
                let ghost n = folders@.len() as int;
                let ghost source = raw_view(&reference_folder);
                let ghost plain = new_button@;
                proof {
                    lemma_first_index_is_first(folder_ids(folders@), new_name@);
                    assert(folder_ids(folders@).len() == n);
                }
                update_folder(folders, new_name.clone(), reference_folder);
                proof {
                    assert(folder_ids(folders@).len() == n + 1);
                    assert(folders@.len() == n + 1);
                    assert forall|j: int| 0 <= j < n implies folder_ids(folders@)[j]
                        != new_name@ by {
                        assert(folder_ids(old(folders)@)[j] != new_name@);
                    }
                    assert(folder_ids(folders@)[n] == new_name@);
                    lemma_first_index(folder_ids(folders@), new_name@, n);
                    assert(folders@.drop_last() =~= old(folders)@);
                    assert(raw_view(&folders@.last().panel) == source);
                    assert(folders@.last().id@ == new_name@);
                }
                let pasted = FolderComponent { id: new_name, name: component.name };
                new_button.insert_component(FolderComponent::name(), pasted.to_value());
            },
        }
    }

    /// The components that the module offers. Their default looks are left
    /// empty here: the rendering side composes them.
    pub fn components(&self) -> (list: Vec<NamedDefinition>)
        ensures
            list@.len() == 3,
            list@[0]@ == ("folder"@, ("Folder"@, "Opens folder"@, Seq::<char>::empty())),
            list@[1]@ == (
                "folder_link"@,
                ("Folder Link"@, "Opens existing folders in symlink style"@, Seq::<char>::empty()),
            ),
            list@[2]@ == (
                "folder_up"@,
                ("Folder Up"@, "Back button for folders"@, Seq::<char>::empty()),
            ),
    {
        let mut list: Vec<NamedDefinition> = Vec::new();
        list.push(
            NamedDefinition {
                name: FolderComponent::name().to_owned(),
                definition: ComponentDefinition {
                    display_name: "Folder".to_owned(),
                    description: "Opens folder".to_owned(),
                    default_looks: String::new(),
                },
            },
        );
        list.push(
            NamedDefinition {
                name: FolderLinkComponent::name().to_owned(),
                definition: ComponentDefinition {
                    display_name: "Folder Link".to_owned(),
                    description: "Opens existing folders in symlink style".to_owned(),
                    default_looks: String::new(),
                },
            },
        );
        list.push(
            NamedDefinition {
                name: FolderUpComponent::name().to_owned(),
                definition: ComponentDefinition {
                    display_name: "Folder Up".to_owned(),
                    description: "Back button for folders".to_owned(),
                    default_looks: String::new(),
                },
            },
        );
        list
    }
}

/// Every kept panel is in the store of `core`, and its data name the
/// folder it was opened for.
pub open spec fn kept_panels_name_folders(refs: Seq<FolderReference>, core: SDCore) -> bool {
    forall|i: int|
        0 <= i < refs.len() ==> (#[trigger] refs[i]).panel.slot < core.buttons.panels@.len()
            && core.buttons.panels@[refs[i].panel.slot as int].data == stack_data_value(
            refs[i].id@,
        )
}

/// Opening a folder that is stored or kept puts one frame on top of the
/// stack and leaves the frames below as they were. Where every kept panel
/// names its folder, the frame on top names the folder that was opened,
/// whether it was opened before or not, and every kept panel names its
/// folder still.
pub proof fn lemma_opened_frame_names_folder(
    refs0: Seq<FolderReference>,
    core0: SDCore,
    refs1: Seq<FolderReference>,
    core1: SDCore,
    folders: Seq<FolderEntry>,
    id: Seq<char>,
    name: Option<Seq<char>>,
)
    requires
        opened(refs0, core0, refs1, core1, folders, id, name),
        kept_panels_name_folders(refs0, core0),
    ensures
        kept_panels_name_folders(refs1, core1),
        known(reference_ids(refs0), id) || known(folder_ids(folders), id) ==> {
            let top = core1.current_stack@.last();
            &&& core1.current_stack@.len() == core0.current_stack@.len() + 1
            &&& core1.current_stack@.drop_last() == core0.current_stack@
            &&& top.slot < core1.buttons.panels@.len()
            &&& core1.buttons.panels@[top.slot as int].data == stack_data_value(id)
        },
        !known(reference_ids(refs0), id) && !known(folder_ids(folders), id)
            ==> core1.current_stack@ == core0.current_stack@,
{
    lemma_first_index_is_first(reference_ids(refs0), id);
    if known(reference_ids(refs0), id) {
        let i = first_index(reference_ids(refs0), id);
        assert(refs0[i].id@ == id);
        assert(core1.current_stack@.drop_last() =~= core0.current_stack@);
    } else if known(folder_ids(folders), id) {
        let p0 = core0.buttons.panels@;
        let p1 = core1.buttons.panels@;
        assert(core1.current_stack@.drop_last() =~= core0.current_stack@);
        assert forall|i: int| 0 <= i < refs1.len() implies (#[trigger] refs1[i]).panel.slot
            < p1.len() && p1[refs1[i].panel.slot as int].data == stack_data_value(
            refs1[i].id@,
        ) by {
            if i < refs0.len() {
                assert(refs1[i] == refs1.drop_last()[i]);
                assert(refs1[i] == refs0[i]);
                let slot = refs0[i].panel.slot as int;
                assert(slot < p0.len());
                assert(p1[slot] == p1.drop_last()[slot]);
                assert(p1[slot].data == stack_data_value(refs0[i].id@));
            } else {
                assert(refs1[i] == refs1.last());
                assert(core0.buttons.panels.len() == p0.len());
                assert(refs1[i].panel.slot == p0.len());
                assert(p1[p0.len() as int] == p1.last());
                assert(shown(core1.buttons@, frame_view(p1.last())).data == p1.last().data);
                assert(p1.last().data == stack_data_value(id));
            }
        }
    }
}

/// No event breaks the tie between the kept panels and their folders.
pub proof fn lemma_event_keeps_panels(
    m0: FolderModule,
    core0: SDCore,
    f0: Seq<FolderEntry>,
    event: SDCoreEvent,
    m1: FolderModule,
    core1: SDCore,
    f1: Seq<FolderEntry>,
)
    requires
        event_done(m0, core0, f0, event, m1, core1, f1),
        kept_panels_name_folders(m0.folder_references@, core0),
    ensures
        kept_panels_name_folders(m1.folder_references@, core1),
{
    match event {
        SDCoreEvent::ButtonAction { key, pressed_button } => {
            if pressed_button.cell < core0.buttons@.len() {
                let b = core0.buttons@[pressed_button.cell as int];
                if !goes_up(b) {
                    match folder_of_button(b) {
                        Some(f) => {
                            lemma_opened_frame_names_folder(
                                m0.folder_references@,
                                core0,
                                m1.folder_references@,
                                core1,
                                f0,
                                f.0,
                                Some(f.1),
                            );
                        },
                        None => match link_of_button(b) {
                            Some(id) => {
                                lemma_opened_frame_names_folder(
                                    m0.folder_references@,
                                    core0,
                                    m1.folder_references@,
                                    core1,
                                    f0,
                                    id,
                                    None,
                                );
                            },
                            None => {},
                        },
                    }
                }
            }
        },
        _ => {},
    }
}

} // verus!
