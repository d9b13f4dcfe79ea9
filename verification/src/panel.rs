//! Panels in their two forms, and the store of shared button cells.
//!
//! A value-form panel owns its buttons. A live panel maps each key to a
//! handle of a cell in a `ButtonStore`; several panels may hold the same
//! handle, and a write through it is seen through all of them. The store
//! keeps the live panels too: a panel is reached by its handle, and
//! everyone who holds the handle sees the one panel.

use crate::button::{Button, ButtonView};
use crate::json::{copy_value, json_null, null_value};
use serde_json::Value;
use std::collections::HashMap;
use vstd::prelude::*;

verus! {

broadcast use vstd::std_specs::hash::group_hash_axioms;

/// Handle of a shared button cell.
#[derive(Clone, Copy, Debug)]
pub struct UniqueButton {
    pub cell: usize,
}

/// Handle of a live panel.
#[derive(Clone, Copy, Debug)]
pub struct UniquePanel {
    pub slot: usize,
}

/// Buttons of a live panel, by key.
pub type UniqueButtonMap = HashMap<u8, UniqueButton>;

/// Buttons of a value-form panel, by key.
pub type ButtonMap = HashMap<u8, Button>;

/// A live panel.
pub type ButtonPanel = Panel<UniqueButtonMap>;

/// A value-form panel.
pub type RawButtonPanel = Panel<ButtonMap>;

/// A navigation frame: one screen of buttons with its metadata.
pub struct Panel<T> {
    /// Name shown for the frame.
    pub display_name: String,
    /// Open structured data kept with the frame.
    pub data: Value,
    /// The buttons by key.
    pub buttons: T,
}

impl<T> Panel<T> {
    /// The buttons of the panel, without its metadata.
    pub fn into_buttons(self) -> (buttons: T)
        ensures
            buttons == self.buttons,
    {
        self.buttons
    }
}

/// What a panel is, whichever its form: metadata and the state of the
/// button under each occupied key.
pub ghost struct PanelView {
    pub display_name: Seq<char>,
    pub data: Value,
    pub buttons: Map<u8, ButtonView>,
}

/// The value of a value-form panel.
pub open spec fn raw_view(p: &RawButtonPanel) -> PanelView {
    PanelView {
        display_name: p.display_name@,
        data: p.data,
        buttons: Map::new(|k: u8| p.buttons@.contains_key(k), |k: u8| p.buttons@[k]@),
    }
}

/// The value of a live panel: each handle resolved in `cells`.
pub open spec fn live_view(cells: Seq<ButtonView>, p: &ButtonPanel) -> PanelView {
    PanelView {
        display_name: p.display_name@,
        data: p.data,
        buttons: Map::new(
            |k: u8| p.buttons@.contains_key(k),
            |k: u8| cells[p.buttons@[k].cell as int],
        ),
    }
}

/// Every handle of `p` names a cell below `n`.
pub open spec fn handles_below(p: &ButtonPanel, n: int) -> bool {
    forall|k: u8| #[trigger] p.buttons@.contains_key(k) ==> (p.buttons@[k].cell as int) < n
}

/// Every handle of `p` names a cell at or above `n`.
pub open spec fn handles_from(p: &ButtonPanel, n: int) -> bool {
    forall|k: u8| #[trigger] p.buttons@.contains_key(k) ==> (p.buttons@[k].cell as int) >= n
}

/// No two keys of `p` share a cell.
pub open spec fn handles_distinct(p: &ButtonPanel) -> bool {
    forall|j: u8, k: u8|
        #[trigger] p.buttons@.contains_key(j) && #[trigger] p.buttons@.contains_key(k) && j != k
            ==> p.buttons@[j].cell != p.buttons@[k].cell
}

/// `raw` is the point-in-time copy of `live` over `cells`.
pub open spec fn is_raw_of(cells: Seq<ButtonView>, live: &ButtonPanel, raw: &RawButtonPanel) -> bool {
    handles_below(live, cells.len() as int) && raw_view(raw) == live_view(cells, live)
}

/// `live` over `after` is `raw` made live on top of the cells `before`:
/// the old cells are untouched and every button sits in a fresh cell of
/// its own.
pub open spec fn is_unique_of(
    raw: &RawButtonPanel,
    before: Seq<ButtonView>,
    after: Seq<ButtonView>,
    live: &ButtonPanel,
) -> bool {
    &&& before.len() <= after.len()
    &&& after.take(before.len() as int) == before
    &&& handles_from(live, before.len() as int)
    &&& handles_below(live, after.len() as int)
    &&& handles_distinct(live)
    &&& live_view(after, live) == raw_view(raw)
}

/// The cells that live panels point into, and the live panels themselves.
pub struct ButtonStore {
    pub cells: Vec<Button>,
    pub panels: Vec<ButtonPanel>,
}

impl View for ButtonStore {
    type V = Seq<ButtonView>;

    open spec fn view(&self) -> Seq<ButtonView> {
        self.cells@.map_values(|b: Button| b@)
    }
}

impl ButtonStore {
    /// A store without cells and panels.
    pub fn new() -> (s: ButtonStore)
        ensures
            s@.len() == 0,
            s.panels@.len() == 0,
    {
        ButtonStore { cells: Vec::new(), panels: Vec::new() }
    }

    /// Keeps a live panel and returns its handle. Whoever holds the handle
    /// sees the one panel.
    pub fn make_panel_live(&mut self, panel: ButtonPanel) -> (h: UniquePanel)
        ensures
            h.slot == old(self).panels@.len(),
            final(self).panels@ == old(self).panels@.push(panel),
            final(self).cells == old(self).cells,
    {
        let h = UniquePanel { slot: self.panels.len() };
        self.panels.push(panel);
        h
    }

    /// The panel behind a handle, if the store keeps one there.
    pub fn panel(&self, h: UniquePanel) -> (r: Option<&ButtonPanel>)
        ensures
            match r {
                Some(p) => h.slot < self.panels@.len() && *p == self.panels@[h.slot as int],
                None => h.slot >= self.panels@.len(),
            },
    {
        if h.slot < self.panels.len() {
            Some(&self.panels[h.slot])
        } else {
            None
        }
    }

    /// The number of cells.
    pub fn len(&self) -> (n: usize)
        ensures
            n == self@.len(),
    {
        self.cells.len()
    }

    /// Puts `button` into a fresh cell and returns its handle.
    pub fn make_button_unique(&mut self, button: Button) -> (h: UniqueButton)
        ensures
            h.cell == old(self)@.len(),
            final(self)@ == old(self)@.push(button@),
            final(self).panels == old(self).panels,
    {
        let h = UniqueButton { cell: self.cells.len() };
        self.cells.push(button);
        assert(self@ =~= old(self)@.push(button@));
        h
    }

    /// A copy of the current state of the cell `h`.
    pub fn button_to_raw(&self, h: UniqueButton) -> (b: Button)
        requires
            h.cell < self@.len(),
        ensures
            b@ == self@[h.cell as int],
    {
        self.cells[h.cell].duplicate()
    }

    /// Replaces the state of the cell `h`. Every panel that holds `h` sees
    /// the new state; no other cell changes.
    pub fn write(&mut self, h: UniqueButton, button: Button)
        requires
            h.cell < old(self)@.len(),
        ensures
            final(self)@ == old(self)@.update(h.cell as int, button@),
            final(self).panels == old(self).panels,
    {
        self.cells.set(h.cell, button);
        assert(self@ =~= old(self)@.update(h.cell as int, button@));
    }
}

/// An empty live panel without metadata.
pub fn empty_panel() -> (p: ButtonPanel)
    ensures
        p.display_name@.len() == 0,
        json_null(p.data),
        p.buttons@ == Map::<u8, UniqueButton>::empty(),
{
    Panel { display_name: String::new(), data: null_value(), buttons: HashMap::new() }
}

/// Makes a value-form panel live: metadata is kept and every button is
/// copied into a fresh cell of `store`.
pub fn make_panel_unique(store: &mut ButtonStore, raw: &RawButtonPanel) -> (live: ButtonPanel)
    ensures
        is_unique_of(raw, old(store)@, final(store)@, &live),
        final(store)@.len() == old(store)@.len() + raw.buttons@.dom().len(),
        final(store).panels == old(store).panels,
{
    let mut buttons: HashMap<u8, UniqueButton> = HashMap::new();
    let ghost before = store@;
    let mut k: usize = 0;
    proof {
        lemma_keys_below(raw.buttons@.dom(), 0);
    }
    while k < 256
        invariant
            k <= 256,
            store.panels == old(store).panels,
            before.len() <= store@.len(),
            store@.take(before.len() as int) == before,
            store@.len() == before.len() + keys_below(raw.buttons@.dom(), k as int).len(),
            keys_below(raw.buttons@.dom(), k as int).finite(),
            forall|j: u8| #[trigger]
                buttons@.contains_key(j) <==> (raw.buttons@.contains_key(j) && (j as int) < k),
            forall|j: u8| #[trigger]
                buttons@.contains_key(j) ==> before.len() <= buttons@[j].cell < store@.len()
                    && store@[buttons@[j].cell as int] == raw.buttons@[j]@,
            forall|i: u8, j: u8|
                #[trigger] buttons@.contains_key(i) && #[trigger] buttons@.contains_key(j) && i != j
                    ==> buttons@[i].cell != buttons@[j].cell,
        decreases 256 - k,
    {
        let key: u8 = k as u8;
        let ghost prev = store@;
        proof {
            lemma_keys_below(raw.buttons@.dom(), k as int + 1);
        }
        match raw.buttons.get(&key) {
            Some(b) => {
                let h = store.make_button_unique(b.duplicate());
                buttons.insert(key, h);
                assert(store@.take(before.len() as int) =~= before);
                assert(keys_below(raw.buttons@.dom(), k as int + 1) =~= keys_below(
                    raw.buttons@.dom(),
                    k as int,
                ).insert(key));
            },
            None => {
                assert(keys_below(raw.buttons@.dom(), k as int + 1) =~= keys_below(
                    raw.buttons@.dom(),
                    k as int,
                ));
            },
        }
        k = k + 1;
    }
    let live = Panel {
        display_name: raw.display_name.clone(),
        data: copy_value(&raw.data),
        buttons,
    };
    assert(keys_below(raw.buttons@.dom(), 256) =~= raw.buttons@.dom());
    assert(live_view(store@, &live).buttons =~= raw_view(raw).buttons);
    live
}

/// The keys of `s` below `n`.
pub open spec fn keys_below(s: Set<u8>, n: int) -> Set<u8> {
    s.filter(|k: u8| (k as int) < n)
}

/// The keys below a bound are finitely many, and none lies below zero.
pub proof fn lemma_keys_below(s: Set<u8>, n: int)
    requires
        0 <= n <= 256,
    ensures
        keys_below(s, n).finite(),
        n == 0 ==> keys_below(s, n).len() == 0,
    decreases n,
{
    if n == 0 {
        assert(keys_below(s, n) =~= Set::<u8>::empty());
    } else {
        lemma_keys_below(s, n - 1);
        let key = (n - 1) as u8;
        if s.contains(key) {
            assert(keys_below(s, n) =~= keys_below(s, n - 1).insert(key));
        } else {
            assert(keys_below(s, n) =~= keys_below(s, n - 1));
        }
    }
}

/// Copies a live panel into value form: metadata is kept and every button
/// is copied in the state its cell holds now.
pub fn panel_to_raw(store: &ButtonStore, live: &ButtonPanel) -> (raw: RawButtonPanel)
    requires
        handles_below(live, store@.len() as int),
    ensures
        is_raw_of(store@, live, &raw),
{
    let mut buttons: HashMap<u8, Button> = HashMap::new();
    let mut k: usize = 0;
    while k < 256
        invariant
            k <= 256,
            handles_below(live, store@.len() as int),
            forall|j: u8| #[trigger]
                buttons@.contains_key(j) <==> (live.buttons@.contains_key(j) && (j as int) < k),
            forall|j: u8| #[trigger]
                buttons@.contains_key(j) ==> buttons@[j]@ == store@[live.buttons@[j].cell as int],
        decreases 256 - k,
    {
        let key: u8 = k as u8;
        match live.buttons.get(&key) {
            Some(h) => {
                assert(live.buttons@.contains_key(key));
                let b = store.button_to_raw(*h);
                buttons.insert(key, b);
            },
            None => {},
        }
        k = k + 1;
    }
    let raw = Panel {
        display_name: live.display_name.clone(),
        data: copy_value(&live.data),
        buttons,
    };
    assert(raw_view(&raw).buttons =~= live_view(store@, live).buttons);
    raw
}

/// Round trip. A live panel copied to value form, made live again and
/// copied once more gives the same metadata and the same button under
/// every key, although the second live panel shares no cell with the
/// first.
pub proof fn lemma_round_trip(
    cells: Seq<ButtonView>,
    live: &ButtonPanel,
    raw: &RawButtonPanel,
    cells_again: Seq<ButtonView>,
    live_again: &ButtonPanel,
    raw_again: &RawButtonPanel,
)
    requires
        is_raw_of(cells, live, raw),
        is_unique_of(raw, cells, cells_again, live_again),
        is_raw_of(cells_again, live_again, raw_again),
    ensures
        raw_view(raw_again) == raw_view(raw),
        live_view(cells_again, live_again) == live_view(cells, live),
        live_view(cells_again, live) == live_view(cells, live),
        forall|j: u8, k: u8|
            #[trigger] live.buttons@.contains_key(j) && #[trigger] live_again.buttons@.contains_key(
                k,
            ) ==> live.buttons@[j].cell != live_again.buttons@[k].cell,
{
    assert(live_view(cells_again, live).buttons =~= live_view(cells, live).buttons) by {
        assert forall|k: u8| live.buttons@.contains_key(k) implies cells_again[live.buttons@[k].cell as int]
            == cells[live.buttons@[k].cell as int] by {
            assert(cells_again.take(cells.len() as int)[live.buttons@[k].cell as int]
                == cells_again[live.buttons@[k].cell as int]);
        }
    }
}

/// Shared mutation. After a write through the handle `h`, every key of
/// every panel that holds `h` shows the written button, and every key that
/// holds another cell shows what it showed before.
pub proof fn lemma_shared_write(
    cells: Seq<ButtonView>,
    h: UniqueButton,
    written: ButtonView,
    p: &ButtonPanel,
    k: u8,
)
    requires
        h.cell < cells.len(),
        handles_below(p, cells.len() as int),
        p.buttons@.contains_key(k),
    ensures
        p.buttons@[k].cell == h.cell ==> live_view(cells.update(h.cell as int, written), p).buttons[k]
            == written,
        p.buttons@[k].cell != h.cell ==> live_view(cells.update(h.cell as int, written), p).buttons[k]
            == live_view(cells, p).buttons[k],
        live_view(cells.update(h.cell as int, written), p).buttons.dom() == live_view(
            cells,
            p,
        ).buttons.dom(),
{
    assert(live_view(cells.update(h.cell as int, written), p).buttons.dom() =~= live_view(
        cells,
        p,
    ).buttons.dom());
}

/// An independent copy of a value-form panel.
pub fn copy_raw_panel(p: &RawButtonPanel) -> (c: RawButtonPanel)
    ensures
        raw_view(&c) == raw_view(p),
{
    let mut buttons: HashMap<u8, Button> = HashMap::new();
    let mut k: usize = 0;
    while k < 256
        invariant
            k <= 256,
            forall|j: u8| #[trigger]
                buttons@.contains_key(j) <==> (p.buttons@.contains_key(j) && (j as int) < k),
            forall|j: u8| #[trigger] buttons@.contains_key(j) ==> buttons@[j]@ == p.buttons@[j]@,
        decreases 256 - k,
    {
        let key: u8 = k as u8;
        match p.buttons.get(&key) {
            Some(b) => {
                buttons.insert(key, b.duplicate());
            },
            None => {},
        }
        k = k + 1;
    }
    let c = Panel { display_name: p.display_name.clone(), data: copy_value(&p.data), buttons };
    assert(raw_view(&c).buttons =~= raw_view(p).buttons);
    c
}

/// Whether some key of `p` holds the cell `h`.
pub open spec fn holds_cell(p: &ButtonPanel, h: UniqueButton) -> bool {
    exists|k: u8| #[trigger] p.buttons@.contains_key(k) && p.buttons@[k].cell == h.cell
}

/// Release. A cell that a panel does not hold, or holds no longer, cannot
/// be reached through that panel: none of its keys leads to the cell, and
/// whatever is written to the cell, the panel shows what it showed.
pub proof fn lemma_released_cell_unreachable(
    cells: Seq<ButtonView>,
    h: UniqueButton,
    written: ButtonView,
    p: &ButtonPanel,
)
    requires
        h.cell < cells.len(),
        handles_below(p, cells.len() as int),
        !holds_cell(p, h),
    ensures
        forall|k: u8| #[trigger] p.buttons@.contains_key(k) ==> p.buttons@[k].cell != h.cell,
        live_view(cells.update(h.cell as int, written), p) == live_view(cells, p),
{
    assert(live_view(cells.update(h.cell as int, written), p).buttons =~= live_view(
        cells,
        p,
    ).buttons);
}

} // verus!
