//! Views: the nodes of a scene, and the ids that name them.
use vstd::prelude::*;
use vstd::view::View as _;
use crate::geom::{Bounds, Point, Size};
use crate::button::ButtonState;
use crate::grid::GridLayoutState;
use crate::list_view::SelectOneOf;
use crate::panel::PanelState;
use crate::tabbed_panel::LayoutPanelState;
use crate::text_input::TextInputState;
use crate::toggle_button::SelectedState;
use crate::toggle_group::SelectOneOfState;
use crate::input::InputEvent;
use crate::util::LayoutTheme;

verus! {

/// The name of a view. Two ids name the same view when their text is equal.
#[derive(Debug, PartialEq, Eq, Hash)]
pub struct ViewId {
    id: String,
}

impl vstd::view::View for ViewId {
    type V = Seq<char>;

    closed spec fn view(&self) -> Seq<char> {
        self.id@
    }
}

impl DeepView for ViewId {
    type V = Seq<char>;

    open spec fn deep_view(&self) -> Seq<char> {
        self@
    }
}

impl Clone for ViewId {
    fn clone(&self) -> (r: Self)
        ensures
            r@ == self@,
    {
        ViewId { id: self.id.clone() }
    }
}

impl ViewId {
    pub fn as_str(&self) -> (r: &str)
        ensures
            r@ == self@,
    {
        self.id.as_str()
    }

    pub fn new(id: &'static str) -> (r: ViewId)
        ensures
            r@ == id@,
    {
        ViewId { id: String::from_str(id) }
    }

    pub fn make(id: String) -> (r: ViewId)
        ensures
            r@ == id@,
    {
        ViewId { id }
    }

    /// Whether both ids have the same text.
    pub fn same_as(&self, other: &ViewId) -> (r: bool)
        ensures
            r == (self@ == other@),
    {
        self.id == other.id
    }

    /// The id's text, as its `Display` form.
    pub fn to_string(&self) -> (r: String)
        ensures
            r@ == self@,
    {
        self.id.clone()
    }
}

/// How a view's size along one axis is decided by layout.
#[derive(PartialEq, Eq, Structural, Debug, Copy, Clone)]
pub enum Flex {
    /// The view keeps the size that its own content asks for.
    Intrinsic,
    /// The view takes the space that its parent offers.
    Resize,
}

/// Where a view sits inside the space that it is given.
#[derive(PartialEq, Eq, Structural, Debug, Copy, Clone)]
pub enum Align {
    Start,
    Center,
    End,
}

/// The built-in ways in which a view reacts to input.
#[derive(PartialEq, Eq, Structural, Debug, Copy, Clone)]
pub enum InputKind {
    /// Focus on tap, then emit the button's command.
    Button,
    /// Flip the selected flag on any input.
    ToggleButton,
    /// Select the tapped cell and emit its item.
    ToggleGroup,
    /// A toggle group that switches the visible page of its tabbed panel.
    Tabs,
    /// Edit text with the keyboard; focus on tap.
    TextInput,
    /// Select the tapped cell of a list and emit its item.
    List,
    /// Hand the event to the view's own behaviour (`CustomView::input`).
    Custom,
}

/// The built-in layout algorithms.
#[derive(PartialEq, Eq, Structural, Debug, Copy, Clone)]
pub enum LayoutKind {
    /// Fill the space, then lay out every child in the same space.
    Root,
    VBox,
    HBox,
    StdPanel,
    Grid,
    ToggleGroup,
    TabbedPanel,
    /// Size to the title in the theme's bold font.
    Button,
    /// Size to the title in the theme's regular font.
    Label,
    /// A row tall enough for the theme's regular font.
    List,
    /// The size that the view's own behaviour gives (`CustomView::layout`).
    Custom,
}

/// The built-in ways to draw a view; the drawing itself needs a display and
/// is done outside the library.
#[derive(PartialEq, Eq, Structural, Debug, Copy, Clone)]
pub enum DrawKind {
    Root,
    Button,
    Label,
    Panel,
    Grid,
    ToggleButton,
    ToggleGroup,
    TabbedPanel,
    TextInput,
    List,
    /// What the view's own behaviour paints (`CustomView::paint`).
    Custom,
}

/// The colors of a theme, named by their use; what they are is the
/// theme's business.
#[derive(PartialEq, Eq, Structural, Debug, Copy, Clone)]
pub enum Tone {
    StandardFill,
    StandardText,
    AccentedFill,
    AccentedText,
    SelectedFill,
    SelectedText,
    PanelFill,
    PanelText,
}

/// One step of painting a view of the application's own making, in the
/// coordinates of its parent.
#[derive(PartialEq, Eq, Debug, Clone)]
pub enum PaintOp {
    FillRect(Bounds, Tone),
    StrokeRect(Bounds, Tone),
    Line(Point, Point, Tone),
    /// Text in the theme's regular font, centered in the rectangle.
    Text(Bounds, String, Tone),
}

/// Whether `s` may be the size that a view of the application's own making
/// gives: any size may be, so that `CustomView::size_in` picks one for each
/// view and arguments without saying which.
pub open spec fn answers<T: ?Sized>(c: &T, title: Seq<char>, current: Size, space: Size, theme: LayoutTheme, s: Size) -> bool {
    s == s
}

/// The behaviour and state of a view of the application's own making: how
/// it sizes itself, reacts to input and paints, and what it remembers. The
/// application implements it; a view carries it as `ViewState::Custom` and
/// uses it through the `Custom` kinds.
///
/// The library believes one thing of every implementation, and proves its
/// passes from it: what `layout` answers depends only on the view's state,
/// its title, its current size, the offered space and the theme (it is
/// `size_in`). Nothing is assumed of `input`, `paint` or `describe`.
/// `menu::MenuView` is an implementation verified with the library.
pub trait CustomView {
    /// The size that `layout` gives: some size that depends on the view's
    /// state, its title, its current size, the offered space and the theme,
    /// and on nothing else. Which size it is, the library does not know; an
    /// implementation verified with the library may say it by overriding
    /// this function.
    open spec fn size_in(&self, title: Seq<char>, current: Size, space: Size, theme: LayoutTheme) -> Size {
        choose|s: Size| answers(self, title, current, space, theme, s)
    }

    /// The view's size in the offered `space`.
    fn layout(&self, title: &str, current: Size, space: Size, theme: &LayoutTheme) -> (r: Size)
        ensures
            r == self.size_in(title@, current, space, *theme),
    ;

    /// Reacts to an event sent to the view, which sits at `bounds` in its
    /// parent's space: it may change its own state and the view's title, and
    /// answers with a command, if any, and with whether the view takes the
    /// focus.
    fn input(&mut self, title: &mut String, bounds: Bounds, ev: &InputEvent) -> (Option<String>, bool);

    /// How to paint the view in `bounds`; `focused` says whether it has the
    /// focus.
    fn paint(&self, bounds: Bounds, focused: bool) -> Vec<PaintOp>;

    /// A short description of the state, for logs and tests.
    fn describe(&self) -> String;
}

/// The internal state that a view may carry.
pub enum ViewState {
    Button(ButtonState),
    Panel(PanelState),
    TextInput(TextInputState),
    Selected(SelectedState),
    SelectOneOf(SelectOneOfState),
    List(SelectOneOf),
    Grid(GridLayoutState),
    Tabs(LayoutPanelState),
    /// Free text, for views whose state is a plain string.
    Text(String),
    /// The behaviour and state of a view of the application's own making.
    Custom(Box<dyn CustomView>),
}

/// A node of a scene: a named rectangle with its flex and alignment rules,
/// its visibility, its state and the behaviours that draw it, lay it out and
/// handle its input. The behaviours are the built-in kinds (`DrawKind`,
/// `LayoutKind`, `InputKind`) and the state one of `ViewState`; a view of
/// the application's own making carries its behaviour and state as a
/// `CustomView` and uses the `Custom` kinds.
pub struct View {
    pub name: ViewId,
    pub title: String,
    pub bounds: Bounds,
    pub v_flex: Flex,
    pub h_flex: Flex,
    pub h_align: Align,
    pub v_align: Align,
    pub visible: bool,
    pub input: Option<InputKind>,
    pub state: Option<ViewState>,
    pub layout: Option<LayoutKind>,
    pub draw: Option<DrawKind>,
}

/// The text `noname`.
pub open spec fn noname() -> Seq<char> {
    seq!['n', 'o', 'n', 'a', 'm', 'e']
}

impl View {
    pub fn with_name(self, name: ViewId) -> (r: View)
        ensures
            r == (View { name, ..self }),
    {
        let mut v = self;
        v.name = name;
        v
    }

    pub fn with_bounds(self, bounds: Bounds) -> (r: View)
        ensures
            r == (View { bounds, ..self }),
    {
        let mut v = self;
        v.bounds = bounds;
        v
    }

    pub fn with_layout(self, layout: Option<LayoutKind>) -> (r: View)
        ensures
            r == (View { layout, ..self }),
    {
        let mut v = self;
        v.layout = layout;
        v
    }

    pub fn with_state(self, state: Option<ViewState>) -> (r: View)
        ensures
            r == (View { state, ..self }),
    {
        let mut v = self;
        v.state = state;
        v
    }

    pub fn with_flex(self, h_flex: Flex, v_flex: Flex) -> (r: View)
        ensures
            r == (View { h_flex, v_flex, ..self }),
    {
        let mut v = self;
        v.h_flex = h_flex;
        v.v_flex = v_flex;
        v
    }

    pub fn position_at(self, x: i32, y: i32) -> (r: View)
        ensures
            r == (View { bounds: Bounds { position: Point { x, y }, size: self.bounds.size }, ..self }),
    {
        let mut v = self;
        v.bounds.position.x = x;
        v.bounds.position.y = y;
        v
    }

    pub fn with_size(self, w: i32, h: i32) -> (r: View)
        ensures
            r == (View { bounds: Bounds { position: self.bounds.position, size: Size { w, h } }, ..self }),
    {
        let mut v = self;
        v.bounds.size.w = w;
        v.bounds.size.h = h;
        v
    }

    pub fn with_visible(self, visible: bool) -> (r: View)
        ensures
            r == (View { visible, ..self }),
    {
        let mut v = self;
        v.visible = visible;
        v
    }

    pub fn set_hidden(&mut self)
        ensures
            *final(self) == (View { visible: false, ..*old(self) }),
    {
        self.visible = false;
    }

    pub fn with_draw_fn(self, draw: Option<DrawKind>) -> (r: View)
        ensures
            r == (View { draw, ..self }),
    {
        let mut v = self;
        v.draw = draw;
        v
    }

    /// A visible view named `noname`, titled `noname`, at `(0, 0)` and
    /// `100x100`, intrinsic on both axes, centered on both axes, with no
    /// state and no behaviours.
    pub fn new_default() -> (r: View)
        ensures
            r.name@ == noname(),
            r.title@ == noname(),
            r.bounds == (Bounds { position: Point { x: 0, y: 0 }, size: Size { w: 100, h: 100 } }),
            r.h_flex == Flex::Intrinsic,
            r.v_flex == Flex::Intrinsic,
            r.h_align == Align::Center,
            r.v_align == Align::Center,
            r.visible,
            r.input is None,
            r.state is None,
            r.layout is None,
            r.draw is None,
    {
        let id = ViewId::new("noname");
        let title = id.to_string();
        proof {
            reveal_strlit("noname");
        }
        View {
            name: id,
            title,
            bounds: Bounds::new(0, 0, 100, 100),
            h_flex: Flex::Intrinsic,
            v_flex: Flex::Intrinsic,
            h_align: Align::Center,
            v_align: Align::Center,
            visible: true,
            input: None,
            state: None,
            layout: None,
            draw: None,
        }
    }
}

impl Default for View {
    fn default() -> (r: View)
        ensures
            r.name@ == noname(),
            r.title@ == noname(),
            r.bounds == (Bounds { position: Point { x: 0, y: 0 }, size: Size { w: 100, h: 100 } }),
            r.h_flex == Flex::Intrinsic,
            r.v_flex == Flex::Intrinsic,
            r.h_align == Align::Center,
            r.v_align == Align::Center,
            r.visible,
            r.input is None,
            r.state is None,
            r.layout is None,
            r.draw is None,
    {
        View::new_default()
    }
}

} // verus!
