//! A window: a set of panes sharing one rectangular area and one layout
//! tree. The layout's pane ids and the pane list always agree, entry for
//! entry.

use vstd::prelude::*;

use crate::chars::{chars_of_str, string_from_chars};
use crate::geometry::Rect;
use crate::layout::{
    even_horizontal, even_vertical, geo_spec, ids_distinct, insert_after,
    lemma_insert_after_distinct, lemma_remove_at_distinct, lemma_swapped_ids, lemma_swapped_wf,
    main_horizontal, main_vertical, pane_ids_spec, remove_at, swap_label, tiled, wf_node,
    Direction, LayoutNode, Orientation, RATIO_SCALE,
};
use crate::terminal::Terminal;
use crate::{PaneId, WindowId, WtmuxError};

verus! {

/// One pane's engine-side state: its terminal, title and size. The
/// pseudo-terminal handle itself lives with the process edge.
pub struct PaneState {
    pub id: PaneId,
    pub terminal: Terminal,
    pub title: String,
    pub cols: u16,
    pub rows: u16,
    pub exited: bool,
}

impl PaneState {
    pub open spec fn inv(&self) -> bool {
        &&& self.terminal.inv()
        &&& self.cols >= 1
        &&& self.rows >= 1
    }

    /// A fresh pane running its terminal at the given size.
    pub fn new(command: &str, cols: u16, rows: u16) -> (r: PaneState)
        requires
            cols >= 1,
            rows >= 1,
        ensures
            r.inv(),
            r.cols == cols,
            r.rows == rows,
            !r.exited,
    {
        PaneState {
            id: PaneId::new(),
            terminal: Terminal::new(cols, rows),
            title: string_from_chars(&chars_of_str(command)),
            cols,
            rows,
            exited: false,
        }
    }

    /// Resize the pane's terminal; a no-op when the size is unchanged.
    pub fn resize(&mut self, cols: u16, rows: u16)
        requires
            old(self).inv(),
            cols >= 1,
            rows >= 1,
        ensures
            final(self).inv(),
            final(self).cols == cols,
            final(self).rows == rows,
            final(self).id == old(self).id,
    {
        if cols != self.cols || rows != self.rows {
            self.terminal.resize(cols, rows);
            self.cols = cols;
            self.rows = rows;
        }
    }
}

/// The pane ids of a pane list, in order.
pub open spec fn pane_list_ids(panes: Seq<PaneState>) -> Seq<PaneId> {
    panes.map_values(|p: PaneState| p.id)
}

/// A window owning panes and the layout that arranges them.
pub struct Window {
    pub id: WindowId,
    pub name: String,
    pub index: usize,
    pub panes: Vec<PaneState>,
    pub layout: LayoutNode,
    pub active_pane: PaneId,
    pub last_active_pane: Option<PaneId>,
    pub zoomed_pane: Option<PaneId>,
    pub layout_preset: usize,
    pub area: Rect,
}

impl Window {
    /// The window invariant: the layout is well-formed, its pane ids are
    /// exactly the pane list's ids in the same order with no duplicates,
    /// the active pane exists, and every pane is well-formed.
    pub open spec fn inv(&self) -> bool {
        &&& wf_node(self.layout)
        &&& pane_ids_spec(self.layout) == pane_list_ids(self.panes@)
        &&& ids_distinct(self.layout)
        &&& pane_ids_spec(self.layout).contains(self.active_pane)
        &&& forall|i: int| 0 <= i < self.panes@.len() ==> (#[trigger] self.panes@[i]).inv()
        &&& self.area.in_bounds()
        &&& self.panes@.len() <= RATIO_SCALE
    }

    pub fn new(name: &str, index: usize, first_pane: PaneState, area: Rect) -> (r: Window)
        requires
            first_pane.inv(),
            area.in_bounds(),
        ensures
            r.inv(),
            r.panes@.len() == 1,
            r.panes@[0] == first_pane,
            r.index == index,
            r.area == area,
            r.zoomed_pane is None,
            r.last_active_pane is None,
            r.layout == LayoutNode::Leaf(first_pane.id),
            r.active_pane == first_pane.id,
            r.name@ == name@,
    {
        let pane_id = first_pane.id;
        let mut panes: Vec<PaneState> = Vec::new();
        panes.push(first_pane);
        let r = Window {
            id: WindowId::new(),
            name: string_from_chars(&chars_of_str(name)),
            index,
            panes,
            layout: LayoutNode::Leaf(pane_id),
            active_pane: pane_id,
            last_active_pane: None,
            zoomed_pane: None,
            layout_preset: 0,
            area,
        };
        proof {
            assert(pane_ids_spec(r.layout) =~= seq![pane_id]);
            assert(pane_list_ids(r.panes@) =~= seq![pane_id]);
            assert(pane_ids_spec(r.layout)[0] == pane_id);
        }
        r
    }

    /// The index of a pane id in the pane list, if present.
    fn find_pane(&self, id: PaneId) -> (r: Option<usize>)
        ensures
            match r {
                Some(i) => i < self.panes@.len() && self.panes@[i as int].id == id,
                None => forall|q: int|
                    0 <= q < self.panes@.len() ==> (#[trigger] self.panes@[q]).id != id,
            },
    {
        let n = self.panes.len();
        let mut i: usize = 0;
        while i < n
            invariant
                n == self.panes@.len(),
                i <= n,
                forall|q: int| 0 <= q < i ==> (#[trigger] self.panes@[q]).id != id,
            decreases n - i,
        {
            if self.panes[i].id == id {
                return Some(i);
            }
            i += 1;
        }
        None
    }

    /// Split the active pane, adding a new pane beside it running
    /// `command`. The pane id is drawn at random; everything else is
    /// `split_pane_with_id`, which says exactly when the split succeeds.
    pub fn split_pane(&mut self, command: &str, horizontal: bool) -> (r: Result<
        PaneId,
        WtmuxError,
    >)
        requires
            old(self).inv(),
        ensures
            final(self).inv(),
            r matches Ok(id) ==> ({
                let old_ids = pane_list_ids(old(self).panes@);
                &&& final(self).panes@.len() == old(self).panes@.len() + 1
                &&& final(self).active_pane == id
                &&& final(self).last_active_pane == Some(old(self).active_pane)
                &&& final(self).area == old(self).area
                &&& final(self).zoomed_pane == old(self).zoomed_pane
                &&& exists|k: int|
                    0 <= k < old_ids.len() && old_ids[k] == old(self).active_pane
                        && pane_list_ids(final(self).panes@) == #[trigger] insert_after(
                        old_ids,
                        k,
                        id,
                    )
            }),
            r is Ok && old(self).layout is Leaf ==> final(self).layout is Split
                && (final(self).layout)->orientation == (if horizontal {
                Orientation::Horizontal
            } else {
                Orientation::Vertical
            }) && (final(self).layout)->children@ =~= seq![
                old(self).layout,
                LayoutNode::Leaf(r->Ok_0),
            ] && (final(self).layout)->ratios@ == seq![RATIO_SCALE / 2, RATIO_SCALE / 2],
            r is Err ==> *final(self) == *old(self),
    {
        let new_pane = PaneState::new(command, 1, 1);
        self.split_pane_with_id(new_pane, horizontal)
    }

    /// Split the active pane around an already-built pane.
    ///
    /// Succeeds exactly when the window is under its pane cap and the new
    /// pane's id is fresh; on success the pane list gains the new pane
    /// right after the active one, which stays recorded as the last
    /// active pane while the new pane becomes active. On failure nothing
    /// changes.
    #[verifier::rlimit(100)]
    #[verifier::spinoff_prover]
    #[verifier::loop_isolation(false)]
    pub fn split_pane_with_id(&mut self, new_pane: PaneState, horizontal: bool) -> (r: Result<
        PaneId,
        WtmuxError,
    >)
        requires
            old(self).inv(),
            new_pane.inv(),
        ensures
            final(self).inv(),
            r is Ok <==> (old(self).panes@.len() < RATIO_SCALE && !pane_list_ids(
                old(self).panes@,
            ).contains(new_pane.id)),
            r matches Ok(id) ==> ({
                let old_ids = pane_list_ids(old(self).panes@);
                &&& id == new_pane.id
                &&& final(self).panes@.len() == old(self).panes@.len() + 1
                &&& final(self).active_pane == id
                &&& final(self).last_active_pane == Some(old(self).active_pane)
                &&& final(self).area == old(self).area
                &&& final(self).zoomed_pane == old(self).zoomed_pane
                &&& exists|k: int|
                    0 <= k < old_ids.len() && old_ids[k] == old(self).active_pane
                        && pane_list_ids(final(self).panes@) == #[trigger] insert_after(
                        old_ids,
                        k,
                        id,
                    )
            }),
            r is Ok && old(self).layout is Leaf ==> final(self).layout is Split
                && (final(self).layout)->orientation == (if horizontal {
                Orientation::Horizontal
            } else {
                Orientation::Vertical
            }) && (final(self).layout)->children@ =~= seq![
                old(self).layout,
                LayoutNode::Leaf(new_pane.id),
            ] && (final(self).layout)->ratios@ == seq![RATIO_SCALE / 2, RATIO_SCALE / 2],
            r is Err ==> *final(self) == *old(self),
    {
        if self.panes.len() >= RATIO_SCALE as usize {
            return Err(WtmuxError::Other(string_from_chars(&chars_of_str("too many panes"))));
        }
        let new_id = new_pane.id;
        // A fresh random id virtually never collides; bail out if it does,
        // so that distinctness is kept.
        match self.find_pane(new_id) {
            Some(i) => {
                proof {
                    assert(pane_list_ids(self.panes@)[i as int] == new_id);
                    assert(pane_list_ids(self.panes@).contains(new_id));
                }
                return Err(
                    WtmuxError::Other(string_from_chars(&chars_of_str("pane id collision"))),
                );
            },
            None => {},
        }
        proof {
            if pane_list_ids(self.panes@).contains(new_id) {
                let w = choose|w: int|
                    0 <= w < pane_list_ids(self.panes@).len() && pane_list_ids(self.panes@)[w]
                        == new_id;
                assert(self.panes@[w].id == new_id);
            }
        }
        proof {
            assert forall|q: int| 0 <= q < pane_ids_spec(self.layout).len() implies #[trigger] pane_ids_spec(
                self.layout,
            )[q] != new_id by {
                assert(pane_ids_spec(self.layout)[q] == pane_list_ids(self.panes@)[q]);
                assert(pane_list_ids(self.panes@)[q] == self.panes@[q].id);
            }
            if pane_ids_spec(self.layout).contains(new_id) {
                let w = choose|w: int|
                    0 <= w < pane_ids_spec(self.layout).len() && pane_ids_spec(self.layout)[w]
                        == new_id;
            }
        }
        let active = self.active_pane;
        let idx = match self.find_pane(active) {
            Some(i) => i,
            None => {
                proof {
                    let w = choose|w: int|
                        0 <= w < pane_ids_spec(self.layout).len() && pane_ids_spec(self.layout)[w]
                            == self.active_pane;
                    assert(pane_list_ids(self.panes@)[w] == self.active_pane);
                    assert(self.panes@[w].id == self.active_pane);
                    assert(false);
                }
                return Err(WtmuxError::PaneNotFound(string_from_chars(&chars_of_str("active"))));
            },
        };
        let orientation = if horizontal {
            Orientation::Horizontal
        } else {
            Orientation::Vertical
        };
        let ghost old_ids = pane_ids_spec(self.layout);
        let found = self.layout.split_pane(active, new_id, orientation);
        proof {
            assert(old_ids.contains(active)) by {
                assert(old_ids[idx as int] == active);
            }
            assert(found);
        }
        let mut new_pane_mut = new_pane;
        let geos = self.layout.calculate_geometries(self.area);
        // Size the new pane to its spot in the refreshed layout.
        let ghost k = choose|k: int|
            0 <= k < old_ids.len() && old_ids[k] == active && pane_ids_spec(self.layout)
                == insert_after(old_ids, k, new_id);
        proof {
            // The active pane's position is unique, so the layout inserted
            // right after the pane list position `idx`.
            assert(old_ids[idx as int] == active);
            assert(old_ids[k] == active);
            assert(k == idx) by {
                if k != idx {
                    assert(old_ids[k] == old_ids[idx as int]);
                }
            }
            lemma_insert_after_distinct(old_ids, k, new_id);
        }
        self.panes.insert(idx + 1, new_pane_mut);
        proof {
            assert(pane_list_ids(self.panes@) =~= insert_after(old_ids, idx as int, new_id));
        }
        self.last_active_pane = Some(active);
        self.active_pane = new_id;
        proof {
            assert(pane_ids_spec(self.layout)[idx + 1] == new_id);
            assert(pane_ids_spec(self.layout).contains(new_id));
        }
        proof {
            let old_ids_pub = pane_list_ids(old(self).panes@);
            assert(old_ids_pub == old_ids);
            assert(old_ids_pub[idx as int] == active);
        }
        self.apply_layout();
        proof {
            let old_ids_pub = pane_list_ids(old(self).panes@);
            assert(pane_list_ids(self.panes@) == insert_after(old_ids_pub, idx as int, new_id));
        }
        Ok(new_id)
    }

    /// Resize every pane to its place in the current layout.
    fn apply_layout(&mut self)
        requires
            old(self).inv(),
        ensures
            final(self).inv(),
            final(self).panes@.len() == old(self).panes@.len(),
            final(self).layout == old(self).layout,
            final(self).active_pane == old(self).active_pane,
            final(self).last_active_pane == old(self).last_active_pane,
            final(self).zoomed_pane == old(self).zoomed_pane,
            final(self).area == old(self).area,
            pane_list_ids(final(self).panes@) == pane_list_ids(old(self).panes@),
            forall|k: int|
                0 <= k < final(self).panes@.len() ==> (#[trigger] final(self).panes@[k]).cols == ({
                    let w = geo_spec(old(self).layout, old(self).area)[k].1.width;
                    if w >= 1 {
                        w
                    } else {
                        1u16
                    }
                }) && final(self).panes@[k].rows == ({
                    let h = geo_spec(old(self).layout, old(self).area)[k].1.height;
                    if h >= 1 {
                        h
                    } else {
                        1u16
                    }
                }) && final(self).panes@[k].id == old(self).panes@[k].id,
    {
        let geos = self.layout.calculate_geometries(self.area);
        let n = geos.len();
        let mut i: usize = 0;
        while i < n
            invariant
                n == geos@.len(),
                i <= n,
                self.inv(),
                self.layout == old(self).layout,
                self.active_pane == old(self).active_pane,
                self.last_active_pane == old(self).last_active_pane,
                self.zoomed_pane == old(self).zoomed_pane,
                self.area == old(self).area,
                self.panes@.len() == old(self).panes@.len(),
                pane_list_ids(self.panes@) =~= pane_list_ids(old(self).panes@),
                geos@ == geo_spec(old(self).layout, old(self).area),
                geos@.len() == self.panes@.len(),
                forall|q: int|
                    0 <= q < geos@.len() ==> (#[trigger] geos@[q]).0 == pane_ids_spec(
                        self.layout,
                    )[q],
                forall|k: int|
                    0 <= k < i ==> (#[trigger] self.panes@[k]).cols == ({
                        let w = geos@[k].1.width;
                        if w >= 1 {
                            w
                        } else {
                            1u16
                        }
                    }) && self.panes@[k].rows == ({
                        let h = geos@[k].1.height;
                        if h >= 1 {
                            h
                        } else {
                            1u16
                        }
                    }) && self.panes@[k].id == old(self).panes@[k].id,
                forall|k: int| i <= k < n ==> #[trigger] self.panes@[k] == old(self).panes@[k],
            decreases n - i,
        {
            let ghost pre = self.panes@;
            if i < self.panes.len() {
                let w = geos[i].1.width;
                let h = geos[i].1.height;
                let cols = if w >= 1 {
                    w
                } else {
                    1
                };
                let rows = if h >= 1 {
                    h
                } else {
                    1
                };
                let p = &mut self.panes[i];
                p.resize(cols, rows);
                proof {
                    assert(self.panes@ == pre.update(i as int, self.panes@[i as int]));
                    assert(pane_list_ids(self.panes@) =~= pane_list_ids(pre));
                    assert forall|q: int| 0 <= q < self.panes@.len() implies (
                    #[trigger] self.panes@[q]).inv() by {
                        if q != i {
                            assert(self.panes@[q] == pre[q]);
                        }
                    }
                }
            }
            i += 1;
        }
    }

    /// Close a pane: drop it from the pane list and the layout. Returns
    /// whether the window is now empty; an emptied window is discarded by
    /// its session, so its invariant no longer binds.
    #[verifier::rlimit(100)]
    #[verifier::spinoff_prover]
    #[verifier::loop_isolation(false)]
    pub fn close_pane(&mut self, pane_id: PaneId) -> (r: bool)
        requires
            old(self).inv(),
        ensures
            r == (final(self).panes@.len() == 0),
            old(self).panes@.len() >= 2 ==> !r,
            !r ==> final(self).inv(),
            !r ==> old(self).panes@.len() == final(self).panes@.len() + (
            if pane_list_ids(old(self).panes@).contains(pane_id) {
                1int
            } else {
                0int
            }),
            !pane_list_ids(old(self).panes@).contains(pane_id) ==> *final(self) == *old(self),
            !r && pane_list_ids(old(self).panes@).contains(pane_id) ==> exists|k: int|
                0 <= k < pane_list_ids(old(self).panes@).len() && pane_list_ids(
                    old(self).panes@,
                )[k] == pane_id && pane_list_ids(final(self).panes@) == #[trigger] remove_at(
                    pane_list_ids(old(self).panes@),
                    k,
                ),
            !r ==> final(self).active_pane == (if old(self).active_pane == pane_id {
                pane_list_ids(final(self).panes@)[0]
            } else {
                old(self).active_pane
            }),
    {
        let idx = match self.find_pane(pane_id) {
            Some(i) => {
                proof {
                    assert(pane_list_ids(self.panes@)[i as int] == pane_id);
                    assert(pane_list_ids(self.panes@).contains(pane_id));
                }
                i
            },
            None => {
                proof {
                    if pane_list_ids(self.panes@).contains(pane_id) {
                        let w = choose|w: int|
                            0 <= w < pane_list_ids(self.panes@).len() && pane_list_ids(
                                self.panes@,
                            )[w] == pane_id;
                        assert(self.panes@[w].id == pane_id);
                        assert(false);
                    }
                }
                return self.panes.len() == 0;
            },
        };
        if self.panes.len() == 1 {
            self.panes.remove(idx);
            return true;
        }
        let ghost old_ids = pane_ids_spec(self.layout);
        proof {
            assert(old_ids[idx as int] == pane_id);
            assert(old_ids.contains(pane_id));
            assert(self.layout is Split) by {
                if self.layout is Leaf {
                    assert(old_ids =~= seq![self.layout->0]);
                    assert(pane_list_ids(self.panes@).len() == 1);
                }
            }
        }
        let removed = self.layout.remove_pane(pane_id);
        proof {
            assert(removed);
        }
        let ghost k = choose|k: int|
            0 <= k < old_ids.len() && old_ids[k] == pane_id && pane_ids_spec(self.layout)
                == remove_at(old_ids, k);
        proof {
            assert(k == idx) by {
                if k != idx {
                    assert(old_ids[k] == old_ids[idx as int]);
                }
            }
            lemma_remove_at_distinct(old_ids, k);
        }
        self.panes.remove(idx);
        proof {
            assert(pane_list_ids(self.panes@) =~= remove_at(old_ids, idx as int));
        }
        if self.active_pane == pane_id {
            self.active_pane = self.panes[0].id;
            proof {
                assert(pane_ids_spec(self.layout)[0] == pane_list_ids(self.panes@)[0]);
                assert(pane_ids_spec(self.layout).contains(self.active_pane));
            }
        } else {
            proof {
                let w = choose|w: int|
                    0 <= w < old_ids.len() && old_ids[w] == self.active_pane;
                let w2 = if w < idx {
                    w
                } else {
                    w - 1
                };
                assert(pane_ids_spec(self.layout)[w2] == self.active_pane);
                assert(pane_ids_spec(self.layout).contains(self.active_pane));
            }
        }
        proof {
            assert(pane_list_ids(self.panes@) == remove_at(
                pane_list_ids(old(self).panes@),
                idx as int,
            ));
            assert(pane_list_ids(old(self).panes@)[idx as int] == pane_id);
        }
        self.apply_layout();
        false
    }

    /// Make the pane in the given direction from the active pane active:
    /// the adjacent pane that `find_adjacent_pane` picks, when there is
    /// one; the previously active pane is recorded.
    pub fn select_pane_direction(&mut self, direction: Direction)
        requires
            old(self).inv(),
        ensures
            final(self).inv(),
            final(self).layout == old(self).layout,
            final(self).panes == old(self).panes,
            final(self).active_pane != old(self).active_pane ==> final(self).last_active_pane
                == Some(old(self).active_pane) && pane_ids_spec(final(self).layout).contains(
                final(self).active_pane,
            ),
    {
        let found = self.layout.find_adjacent_pane(self.active_pane, direction, self.area);
        match found {
            Some(next) => {
                self.last_active_pane = Some(self.active_pane);
                self.active_pane = next;
            },
            None => {},
        }
    }

    /// Toggle zoom: a zoomed pane is drawn over the whole area.
    pub fn toggle_zoom(&mut self)
        requires
            old(self).inv(),
        ensures
            final(self).inv(),
            old(self).zoomed_pane is Some ==> final(self).zoomed_pane is None,
            old(self).zoomed_pane is None ==> final(self).zoomed_pane == Some(
                old(self).active_pane,
            ),
    {
        match self.zoomed_pane {
            Some(_) => {
                self.zoomed_pane = None;
            },
            None => {
                self.zoomed_pane = Some(self.active_pane);
            },
        }
    }

    /// Every pane's rectangle: the whole area for a zoomed pane, else the
    /// layout's tiling.
    pub fn pane_geometries(&self) -> (r: Vec<(PaneId, Rect)>)
        requires
            self.inv(),
        ensures
            match self.zoomed_pane {
                Some(z) => r@ == seq![(z, self.area)],
                None => r@ == geo_spec(self.layout, self.area),
            },
    {
        match self.zoomed_pane {
            Some(z) => {
                let mut v: Vec<(PaneId, Rect)> = Vec::new();
                v.push((z, self.area));
                proof {
                    assert(v@ =~= seq![(z, self.area)]);
                }
                v
            },
            None => self.layout.calculate_geometries(self.area),
        }
    }

    /// Resize the window's area and lay every pane out again: each pane
    /// takes its rectangle in the layout's tiling of the new area, at
    /// least one cell each way.
    pub fn resize(&mut self, area: Rect)
        requires
            old(self).inv(),
            area.in_bounds(),
        ensures
            final(self).inv(),
            final(self).area == area,
            final(self).layout == old(self).layout,
            pane_list_ids(final(self).panes@) == pane_list_ids(old(self).panes@),
            forall|k: int|
                0 <= k < final(self).panes@.len() ==> (#[trigger] final(self).panes@[k]).cols == ({
                    let w = geo_spec(old(self).layout, area)[k].1.width;
                    if w >= 1 {
                        w
                    } else {
                        1u16
                    }
                }) && final(self).panes@[k].rows == ({
                    let h = geo_spec(old(self).layout, area)[k].1.height;
                    if h >= 1 {
                        h
                    } else {
                        1u16
                    }
                }),
    {
        self.area = area;
        self.apply_layout();
    }

    pub fn pane_count(&self) -> (r: usize)
        ensures
            r == self.panes@.len(),
    {
        self.panes.len()
    }

    pub fn area_width(&self) -> (r: u16)
        ensures
            r == self.area.width,
    {
        self.area.width
    }

    pub fn area_height(&self) -> (r: u16)
        ensures
            r == self.area.height,
    {
        self.area.height
    }

    /// Swap back to the previously active pane: when one is recorded and
    /// still open, it becomes active and the roles swap; otherwise nothing
    /// changes.
    pub fn select_last_pane(&mut self)
        requires
            old(self).inv(),
        ensures
            final(self).inv(),
            (match old(self).last_active_pane {
                Some(l) => pane_list_ids(old(self).panes@).contains(l),
                None => false,
            }) ==> final(self).active_pane == old(self).last_active_pane->0
                && final(self).last_active_pane == Some(old(self).active_pane),
            !(match old(self).last_active_pane {
                Some(l) => pane_list_ids(old(self).panes@).contains(l),
                None => false,
            }) ==> *final(self) == *old(self),
    {
        match self.last_active_pane {
            Some(last) => {
                match self.find_pane(last) {
                    Some(i) => {
                        proof {
                            assert(pane_list_ids(self.panes@)[i as int] == last);
                            assert(pane_list_ids(self.panes@).contains(last));
                        }
                        let old_active = self.active_pane;
                        self.active_pane = last;
                        self.last_active_pane = Some(old_active);
                        proof {
                            assert(pane_ids_spec(self.layout)[i as int] == last);
                            assert(pane_ids_spec(self.layout).contains(last));
                        }
                    },
                    None => {
                        proof {
                            if pane_list_ids(self.panes@).contains(last) {
                                let w = choose|w: int|
                                    0 <= w < pane_list_ids(self.panes@).len() && pane_list_ids(
                                        self.panes@,
                                    )[w] == last;
                                assert(self.panes@[w].id == last);
                                assert(false);
                            }
                        }
                    },
                }
            },
            None => {},
        }
    }

    /// Make the next pane in layout order active, wrapping at the end;
    /// the previously active pane is recorded. A lone pane stays put.
    pub fn select_next_pane(&mut self)
        requires
            old(self).inv(),
        ensures
            final(self).inv(),
            old(self).panes@.len() < 2 ==> *final(self) == *old(self),
            old(self).panes@.len() >= 2 ==> exists|k: int|
                0 <= k < pane_list_ids(old(self).panes@).len() && #[trigger] pane_list_ids(
                    old(self).panes@,
                )[k] == old(self).active_pane && final(self).active_pane == pane_list_ids(
                    old(self).panes@,
                )[(k + 1) % pane_list_ids(old(self).panes@).len() as int]
                    && final(self).last_active_pane == Some(old(self).active_pane),
    {
        if self.panes.len() < 2 {
            return ;
        }
        match self.find_pane(self.active_pane) {
            Some(i) => {
                let next = (i + 1) % self.panes.len();
                self.last_active_pane = Some(self.active_pane);
                self.active_pane = self.panes[next].id;
                proof {
                    assert(pane_ids_spec(self.layout)[next as int] == self.active_pane);
                    assert(pane_ids_spec(self.layout).contains(self.active_pane));
                    assert(pane_list_ids(old(self).panes@)[i as int] == old(self).active_pane);
                }
            },
            None => {
                proof {
                    let w = choose|w: int|
                        0 <= w < pane_ids_spec(self.layout).len() && pane_ids_spec(self.layout)[w]
                            == self.active_pane;
                    assert(self.panes@[w].id == self.active_pane);
                    assert(false);
                }
            },
        }
    }

    /// Swap the active pane with its neighbour in layout order: the
    /// previous one when `up`, else the next, wrapping at the ends. The
    /// two panes exchange places; the active pane keeps its identity.
    #[verifier::rlimit(100)]
    #[verifier::spinoff_prover]
    pub fn swap_pane(&mut self, up: bool)
        requires
            old(self).inv(),
        ensures
            final(self).inv(),
            old(self).panes@.len() < 2 ==> *final(self) == *old(self),
            final(self).active_pane == old(self).active_pane,
            old(self).panes@.len() >= 2 ==> exists|k: int|
                0 <= k < pane_list_ids(old(self).panes@).len() && #[trigger] pane_list_ids(
                    old(self).panes@,
                )[k] == old(self).active_pane && pane_list_ids(final(self).panes@) == ({
                    let ids = pane_list_ids(old(self).panes@);
                    let t = if up {
                        if k == 0 {
                            ids.len() - 1
                        } else {
                            k - 1
                        }
                    } else {
                        if k == ids.len() - 1 {
                            0int
                        } else {
                            k + 1
                        }
                    };
                    ids.update(k, ids[t]).update(t, ids[k])
                }),
    {
        let n = self.panes.len();
        if n < 2 {
            return ;
        }
        let idx = match self.find_pane(self.active_pane) {
            Some(i) => {
                proof {
                    assert(pane_list_ids(self.panes@)[i as int] == self.active_pane);
                }
                i
            },
            None => {
                proof {
                    let w = choose|w: int|
                        0 <= w < pane_ids_spec(self.layout).len() && pane_ids_spec(self.layout)[w]
                            == self.active_pane;
                    assert(self.panes@[w].id == self.active_pane);
                    assert(false);
                }
                return ;
            },
        };
        let target_idx = if up {
            if idx == 0 {
                n - 1
            } else {
                idx - 1
            }
        } else {
            if idx == n - 1 {
                0
            } else {
                idx + 1
            }
        };
        proof {
            assert(target_idx != idx);
        }
        let a = self.active_pane;
        let b = self.panes[target_idx].id;
        proof {
            assert(pane_list_ids(self.panes@)[target_idx as int] == b);
            assert(a != b) by {
                if a == b {
                    let ids = pane_ids_spec(self.layout);
                    assert(ids[idx as int] == ids[target_idx as int]);
                }
            }
        }
        let ghost old_ids = pane_ids_spec(self.layout);
        self.layout.swap_panes(a, b);
        proof {
            lemma_swapped_ids(*old(self).layout_ref(), self.layout, a, b);
            lemma_swapped_wf(*old(self).layout_ref(), self.layout, a, b);
        }
        // Swap the two pane entries so the list order keeps matching the
        // layout's id order.
        self.swap_panes_entries(idx, target_idx);
        proof {
            assert(old_ids[idx as int] == a);
            assert(old_ids[target_idx as int] == b);
            assert(pane_list_ids(self.panes@) =~= pane_ids_spec(self.layout)) by {
                assert forall|q: int| 0 <= q < self.panes@.len() implies pane_list_ids(
                    self.panes@,
                )[q] == pane_ids_spec(self.layout)[q] by {
                    assert(pane_ids_spec(self.layout)[q] == swap_label(old_ids[q], a, b));
                    if q == idx {
                    } else if q == target_idx {
                    } else {
                    }
                }
            }
            assert forall|q: int, w: int|
                0 <= q < w < pane_ids_spec(self.layout).len() implies pane_ids_spec(
                self.layout,
            )[q] != pane_ids_spec(self.layout)[w] by {
                assert(pane_ids_spec(self.layout)[q] == swap_label(old_ids[q], a, b));
                assert(pane_ids_spec(self.layout)[w] == swap_label(old_ids[w], a, b));
            }
            assert(pane_ids_spec(self.layout)[target_idx as int] == a);
            assert(pane_ids_spec(self.layout).contains(self.active_pane));
            assert(pane_list_ids(self.panes@) =~= old_ids.update(
                idx as int,
                old_ids[target_idx as int],
            ).update(target_idx as int, old_ids[idx as int])) by {
                assert forall|q: int| 0 <= q < self.panes@.len() implies pane_list_ids(
                    self.panes@,
                )[q] == old_ids.update(idx as int, old_ids[target_idx as int]).update(
                    target_idx as int,
                    old_ids[idx as int],
                )[q] by {
                    if q == idx {
                    } else if q == target_idx {
                    } else {
                        assert(pane_ids_spec(self.layout)[q] == swap_label(old_ids[q], a, b));
                        assert(old_ids[q] != a && old_ids[q] != b);
                    }
                }
            }
            assert forall|q: int| 0 <= q < self.panes@.len() implies (
            #[trigger] self.panes@[q]).inv() by {
                if q == idx {
                    assert(self.panes@[q] == old(self).panes@[target_idx as int]);
                } else if q == target_idx {
                    assert(self.panes@[q] == old(self).panes@[idx as int]);
                } else {
                    assert(self.panes@[q] == old(self).panes@[q]);
                }
            }
        }
        self.apply_layout();
    }

    /// Ghost view of the layout before mutation.
    #[verifier::inline]
    pub open spec fn layout_ref(&self) -> &LayoutNode {
        &self.layout
    }

    /// Swap two entries of the pane list.
    fn swap_panes_entries(&mut self, i: usize, j: usize)
        requires
            i < old(self).panes@.len(),
            j < old(self).panes@.len(),
        ensures
            final(self).panes@ == old(self).panes@.update(i as int, old(self).panes@[j as int]).update(
                j as int,
                old(self).panes@[i as int],
            ),
            final(self).layout == old(self).layout,
            final(self).active_pane == old(self).active_pane,
            final(self).area == old(self).area,
            final(self).zoomed_pane == old(self).zoomed_pane,
            final(self).last_active_pane == old(self).last_active_pane,
    {
        if i == j {
            proof {
                assert(old(self).panes@.update(i as int, old(self).panes@[j as int]).update(
                    j as int,
                    old(self).panes@[i as int],
                ) =~= old(self).panes@);
            }
            return ;
        }
        // Move both entries out through swaps to avoid cloning terminals.
        let mut tmp_i = PaneState::new("", 1, 1);
        let pi = &mut self.panes[i];
        core::mem::swap(pi, &mut tmp_i);
        let pj = &mut self.panes[j];
        core::mem::swap(pj, &mut tmp_i);
        let pi2 = &mut self.panes[i];
        core::mem::swap(pi2, &mut tmp_i);
        proof {
            assert(self.panes@ =~= old(self).panes@.update(i as int, old(self).panes@[j as int]).update(
                j as int,
                old(self).panes@[i as int],
            ));
        }
    }

    /// Change the active pane's share of its split by `amount` cells,
    /// converted to ratio units of the split axis; the pane set and the
    /// active pane are untouched.
    pub fn resize_pane_direction(&mut self, direction: Direction, amount: u16)
        requires
            old(self).inv(),
        ensures
            final(self).inv(),
            pane_list_ids(final(self).panes@) == pane_list_ids(old(self).panes@),
            final(self).active_pane == old(self).active_pane,
    {
        let total: u16 = match direction {
            Direction::Up | Direction::Down => self.area.height,
            Direction::Left | Direction::Right => self.area.width,
        };
        if total == 0 {
            return ;
        }
        let delta: u32 = ((amount as u64) * (RATIO_SCALE as u64) / (total as u64)) as u32;
        let _ = self.layout.resize_pane(self.active_pane, direction, delta);
        self.apply_layout();
    }

    /// Cycle to the next layout preset, rebuilding the tree from the
    /// current panes; the pane set and the active pane are untouched.
    pub fn next_layout(&mut self)
        requires
            old(self).inv(),
        ensures
            final(self).inv(),
            pane_list_ids(final(self).panes@) == pane_list_ids(old(self).panes@),
            final(self).active_pane == old(self).active_pane,
    {
        if self.panes.len() < 2 {
            return ;
        }
        let ids = self.layout.pane_ids();
        proof {
            assert(ids@.len() >= 1);
            assert(ids@.len() <= RATIO_SCALE);
        }
        self.layout_preset = if self.layout_preset >= 4 {
            0
        } else {
            self.layout_preset + 1
        };
        let new_layout = if self.layout_preset == 0 {
            even_horizontal(&ids, self.area)
        } else if self.layout_preset == 1 {
            even_vertical(&ids, self.area)
        } else if self.layout_preset == 2 {
            main_horizontal(&ids, self.area)
        } else if self.layout_preset == 3 {
            main_vertical(&ids, self.area)
        } else {
            tiled(&ids, self.area)
        };
        proof {
            assert(pane_ids_spec(new_layout) == ids@);
            assert(ids@ == pane_ids_spec(old(self).layout));
        }
        self.layout = new_layout;
        self.apply_layout();
    }
}

} // verus!
