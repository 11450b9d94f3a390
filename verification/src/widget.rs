//! The widget tree: an append-only, index-addressed collection of widgets,
//! each tagged with its parent's handle.

use vstd::prelude::*;

verus! {

/// Top-left coordinate, in the coordinate space of the render surface.
pub struct Position {
    pub x: i32,
    pub y: i32,
}

/// Width and height, in the same units as `Position`.
pub struct Size {
    pub w: i32,
    pub h: i32,
}

/// A UI element: shared geometry plus variant-specific state.
pub enum Widget {
    Form { position: Position, size: Size },
    Label { position: Position, size: Size, text: String },
    Button { position: Position, size: Size, pressed: bool },
    Textbox { position: Position, size: Size, text: String },
}

/// Builds a container widget from its geometry.
pub fn new_form(ix: i32, iy: i32, iw: i32, ih: i32) -> (w: Widget)
    ensures
        w == (Widget::Form {
            position: Position { x: ix, y: iy },
            size: Size { w: iw, h: ih },
        }),
{
    Widget::Form { position: Position { x: ix, y: iy }, size: Size { w: iw, h: ih } }
}

/// Builds a text label widget from its geometry and display text.
pub fn new_label(ix: i32, iy: i32, iw: i32, ih: i32, itext: &str) -> (w: Widget)
    ensures
        w matches Widget::Label { position, size, text }
            && position == (Position { x: ix, y: iy })
            && size == (Size { w: iw, h: ih })
            && text@ == itext@,
{
    Widget::Label {
        position: Position { x: ix, y: iy },
        size: Size { w: iw, h: ih },
        text: String::from_str(itext),
    }
}

/// The tree after one insertion: the new entry is appended, so every
/// existing entry keeps its position and its parent.
pub open spec fn insert_model(t: Seq<(i32, Widget)>, parent: i32, w: Widget) -> Seq<(i32, Widget)> {
    t.push((parent, w))
}

/// The tree after a whole sequence of insertions, applied in order.
pub open spec fn apply_inserts(t: Seq<(i32, Widget)>, inserts: Seq<(i32, Widget)>) -> Seq<
    (i32, Widget),
>
    decreases inserts.len(),
{
    if inserts.len() == 0 {
        t
    } else {
        insert_model(apply_inserts(t, inserts.drop_last()), inserts.last().0, inserts.last().1)
    }
}

/// Applying a sequence of insertions grows the tree by exactly one entry
/// per insertion.
pub proof fn lemma_apply_inserts_len(t: Seq<(i32, Widget)>, inserts: Seq<(i32, Widget)>)
    ensures
        apply_inserts(t, inserts).len() == t.len() + inserts.len(),
    decreases inserts.len(),
{
    if inserts.len() > 0 {
        lemma_apply_inserts_len(t, inserts.drop_last());
    }
}

/// Handle monotonicity: over any sequence of insertions into an empty tree,
/// the handle assigned to the `i`-th insertion — the length of the tree just
/// before it — is exactly `i`, so the handles come out as 0, 1, ..., N-1 in
/// insertion order.
pub proof fn lemma_handle_monotonicity(inserts: Seq<(i32, Widget)>, i: int)
    requires
        0 <= i <= inserts.len(),
    ensures
        apply_inserts(Seq::<(i32, Widget)>::empty(), inserts.take(i)).len() == i,
{
    lemma_apply_inserts_len(Seq::<(i32, Widget)>::empty(), inserts.take(i));
}

/// Parent immutability: an entry already in the tree — its widget and its
/// parent handle — is untouched by any sequence of later insertions.
pub proof fn lemma_parent_immutable(
    t: Seq<(i32, Widget)>,
    inserts: Seq<(i32, Widget)>,
    handle: int,
)
    requires
        0 <= handle < t.len(),
    ensures
        apply_inserts(t, inserts)[handle] == t[handle],
    decreases inserts.len(),
{
    lemma_apply_inserts_len(t, inserts);
    if inserts.len() > 0 {
        lemma_parent_immutable(t, inserts.drop_last(), handle);
        lemma_apply_inserts_len(t, inserts.drop_last());
    }
}

/// The tree is append-only: its length never decreases across any sequence
/// of insertions, and no operation removes an entry.
pub proof fn lemma_append_only(t: Seq<(i32, Widget)>, inserts: Seq<(i32, Widget)>)
    ensures
        apply_inserts(t, inserts).len() >= t.len(),
{
    lemma_apply_inserts_len(t, inserts);
}

/// The widget tree: an ordered sequence of (parent handle, widget) pairs.
/// An entry's index is its stable handle; entries are only ever appended.
pub struct UI {
    pub widgets: Vec<(i32, Widget)>,
}

impl View for UI {
    type V = Seq<(i32, Widget)>;

    open spec fn view(&self) -> Seq<(i32, Widget)> {
        self.widgets@
    }
}

impl UI {
    /// Constructs an empty tree.
    pub fn new() -> (ui: UI)
        ensures
            ui@ =~= Seq::<(i32, Widget)>::empty(),
    {
        UI { widgets: Vec::new() }
    }

    /// Returns how many widgets the tree holds.
    pub fn len(&self) -> (n: usize)
        ensures
            n == self@.len(),
    {
        self.widgets.len()
    }

    /// Appends a widget tagged with its parent's handle and returns the new
    /// widget's handle: the next dense index, never a recycled or wrapped
    /// value. The caller must keep the tree below the handle ceiling.
    pub fn add_widget(&mut self, parent: i32, w: Widget) -> (handle: i32)
        requires
            old(self)@.len() < i32::MAX,
        ensures
            final(self)@ == insert_model(old(self)@, parent, w),
            handle == old(self)@.len(),
            0 <= handle < i32::MAX,
    {
        let index = self.widgets.len();
        let safe_index = index as i32;
        self.widgets.push((parent, w));
        safe_index
    }

    /// Appends a widget as `add_widget` does, unless the tree has reached
    /// the maximum representable positive handle: then it returns `None`
    /// and leaves the tree unchanged, instead of wrapping the handle.
    pub fn try_add_widget(&mut self, parent: i32, w: Widget) -> (r: Option<i32>)
        ensures
            old(self)@.len() < i32::MAX ==> r == Some(old(self)@.len() as i32)
                && final(self)@ == insert_model(old(self)@, parent, w),
            old(self)@.len() >= i32::MAX ==> r == None::<i32> && final(self)@ == old(self)@,
    {
        let maxi32 = i32::MAX as usize;
        if self.widgets.len() >= maxi32 {
            None
        } else {
            Some(self.add_widget(parent, w))
        }
    }

    /// Reads the entry at a handle: its parent's handle and its widget.
    pub fn get(&self, handle: i32) -> (r: &(i32, Widget))
        requires
            0 <= handle < self@.len(),
        ensures
            *r == self@[handle as int],
    {
        &self.widgets[handle as usize]
    }
}

} // verus!
