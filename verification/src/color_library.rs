use vstd::prelude::*;
use vstd::arithmetic::div_mod::{lemma_add_mod_noop, lemma_small_mod};
use crate::color::Color;

verus! {

/// What a colour library is: the colours in the order in which they were
/// added, and the place of the selected one.
pub struct ColorLibraryView {
    pub colors: Seq<Color>,
    pub selected_index: nat,
}

impl ColorLibraryView {
    /// The selected colour: the one at the selected place, if there is one.
    pub open spec fn selected_color(self) -> Option<Color> {
        if self.selected_index < self.colors.len() {
            Some(self.colors[self.selected_index as int])
        } else {
            None
        }
    }

    /// Whether `index` is the first place that holds a colour equal to
    /// `color`.
    pub open spec fn is_first_index_of(self, color: Color, index: int) -> bool {
        &&& 0 <= index < self.colors.len()
        &&& self.colors[index].same_color(color)
        &&& forall|j: int| 0 <= j < index ==> !(#[trigger] self.colors[j]).same_color(color)
    }

    /// Whether some place holds a colour equal to `color`.
    pub open spec fn has_color(self, color: Color) -> bool {
        exists|j: int| 0 <= j < self.colors.len() && (#[trigger] self.colors[j]).same_color(color)
    }

    /// The first place that holds a colour equal to `color`.
    pub open spec fn first_index_of(self, color: Color) -> int {
        choose|index: int| self.is_first_index_of(color, index)
    }

    /// The library with one more colour at the end.
    pub open spec fn add_color(self, color: Color) -> ColorLibraryView {
        ColorLibraryView { colors: self.colors.push(color), ..self }
    }

    /// The library after a place was selected: a place that holds no colour
    /// is ignored.
    pub open spec fn select_index(self, index: nat) -> ColorLibraryView {
        if index >= self.colors.len() {
            self
        } else {
            ColorLibraryView { selected_index: index, ..self }
        }
    }

    /// The library after a colour was selected: the first place that holds
    /// it becomes the selected one; a colour that the library lacks is
    /// ignored.
    pub open spec fn select_color(self, color: Color) -> ColorLibraryView {
        if self.has_color(color) {
            ColorLibraryView { selected_index: self.first_index_of(color) as nat, ..self }
        } else {
            self
        }
    }

    /// The library after the selection moved on by one place, from the last
    /// place back to the first.
    pub open spec fn select_next(self) -> ColorLibraryView {
        self.select_index((self.selected_index + 1) % self.colors.len())
    }

    /// The library after the colours of a row of clicks were selected one
    /// after the other.
    pub open spec fn after_clicks(self, clicks: Seq<OnColorClicked>) -> ColorLibraryView
        decreases clicks.len(),
    {
        if clicks.len() == 0 {
            self
        } else {
            self.after_clicks(clicks.drop_last()).select_color(clicks.last().color)
        }
    }

    /// At most one place is the first to hold a colour.
    pub proof fn lemma_first_index_unique(self, color: Color, a: int, b: int)
        requires
            self.is_first_index_of(color, a),
            self.is_first_index_of(color, b),
        ensures
            a == b,
    {
        if a < b {
            assert(!self.colors[a].same_color(color));
        }
        if b < a {
            assert(!self.colors[b].same_color(color));
        }
    }
}

/// The request to select a colour, raised when its button is clicked.
#[derive(Clone, Copy, Debug)]
pub struct OnColorClicked {
    pub color: Color,
}

impl OnColorClicked {
    pub fn new(color: Color) -> (event: Self)
        ensures
            event.color == color,
    {
        Self { color }
    }
}

/// The colours on offer, one of them selected by its place.
#[derive(Debug)]
pub struct ColorLibrary {
    selected_index: usize,
    colors: Vec<Color>,
}

impl View for ColorLibrary {
    type V = ColorLibraryView;

    closed spec fn view(&self) -> ColorLibraryView {
        ColorLibraryView { colors: self.colors@, selected_index: self.selected_index as nat }
    }
}

impl ColorLibrary {
    /// A library without colours.
    pub fn empty() -> (library: Self)
        ensures
            library@ == (ColorLibraryView { colors: Seq::empty(), selected_index: 0 }),
    {
        Self { colors: Vec::new(), selected_index: 0 }
    }

    /// A library with lime green, cyan and gray, the first of them selected.
    pub fn with_default_colors() -> (library: Self)
        ensures
            library@ == (ColorLibraryView {
                colors: seq![Color::spec_lime_green(), Color::spec_cyan(), Color::spec_gray()],
                selected_index: 0,
            }),
    {
        let mut colors: Vec<Color> = Vec::new();
        colors.push(Color::lime_green());
        colors.push(Color::cyan());
        colors.push(Color::gray());
        assert(colors@ =~= seq![Color::spec_lime_green(), Color::spec_cyan(), Color::spec_gray()]);
        Self { colors, selected_index: 0 }
    }

    pub fn add_color(&mut self, color: Color)
        ensures
            final(self)@ == old(self)@.add_color(color),
    {
        self.colors.push(color);
    }

    /// A copy of the colours, in order.
    pub fn all_colors(&self) -> (colors: Vec<Color>)
        ensures
            colors@ == self@.colors,
    {
        let mut colors: Vec<Color> = Vec::new();
        let mut index: usize = 0;
        while index < self.colors.len()
            invariant
                index <= self.colors.len(),
                colors@ == self.colors@.subrange(0, index as int),
            decreases self.colors.len() - index,
        {
            colors.push(self.colors[index]);
            index += 1;
            assert(colors@ =~= self.colors@.subrange(0, index as int));
        }
        assert(colors@ =~= self.colors@);
        colors
    }

    pub fn count(&self) -> (count: usize)
        ensures
            count == self@.colors.len(),
    {
        self.colors.len()
    }

    /// The place of the selected colour.
    pub fn selected_index(&self) -> (index: usize)
        ensures
            index == self@.selected_index,
    {
        self.selected_index
    }

    pub fn selected_color(&self) -> (color: Option<Color>)
        ensures
            color == self@.selected_color(),
    {
        if self.selected_index < self.colors.len() {
            Some(self.colors[self.selected_index])
        } else {
            None
        }
    }

    pub fn select_index(&mut self, index: usize)
        ensures
            final(self)@ == old(self)@.select_index(index as nat),
    {
        if index >= self.count() {
            return ;
        }
        self.selected_index = index;
    }

    /// Selects the first colour of the library that equals `color`, and says
    /// whether there is one.
    pub fn select_color(&mut self, color: Color) -> (found: bool)
        ensures
            found == old(self)@.has_color(color),
            final(self)@ == old(self)@.select_color(color),
    {
        let found_index = self.find_index_of_color(color);
        match found_index {
            Some(index) => {
                proof {
                    self@.lemma_first_index_unique(
                        color,
                        index as int,
                        self@.first_index_of(color),
                    );
                }
                self.select_index(index);
            },
            None => {},
        }
        found_index.is_some()
    }

    /// Moves the selection on by one place, from the last colour back to the
    /// first. The library holds a colour.
    pub fn select_next(&mut self)
        requires
            old(self)@.colors.len() > 0,
        ensures
            final(self)@ == old(self)@.select_next(),
    {
        let count = self.count();
        let place = self.selected_index % count;
        proof {
            if count > 1 {
                lemma_add_mod_noop(self.selected_index as int, 1, count as int);
                lemma_small_mod(1, count as nat);
            }
        }
        self.select_index((place + 1) % count);
    }

    /// The first place that holds a colour equal to `color`, if there is one.
    pub fn find_index_of_color(&self, color: Color) -> (found: Option<usize>)
        ensures
            found is Some <==> self@.has_color(color),
            found matches Some(index) ==> self@.is_first_index_of(color, index as int),
    {
        let mut index: usize = 0;
        while index < self.colors.len()
            invariant
                index <= self.colors.len(),
                forall|j: int| 0 <= j < index ==> !(#[trigger] self.colors@[j]).same_color(color),
            decreases self.colors.len() - index,
        {
            if self.colors[index] == color {
                assert(self@.colors[index as int].same_color(color));
                return Some(index);
            }
            index += 1;
        }
        None
    }
}

/// Selects the colour of each click in turn.
pub fn switch_to_clicked_color(on_clicked: &Vec<OnColorClicked>, color_library: &mut ColorLibrary)
    ensures
        final(color_library)@ == old(color_library)@.after_clicks(on_clicked@),
{
    let ghost before = color_library@;
    let mut index: usize = 0;
    while index < on_clicked.len()
        invariant
            index <= on_clicked.len(),
            color_library@ == before.after_clicks(on_clicked@.subrange(0, index as int)),
        decreases on_clicked.len() - index,
    {
        proof {
            let longer = on_clicked@.subrange(0, index + 1);
            assert(longer.drop_last() =~= on_clicked@.subrange(0, index as int));
            assert(longer.last() == on_clicked@[index as int]);
        }
        color_library.select_color(on_clicked[index].color);
        index += 1;
    }
    assert(on_clicked@.subrange(0, index as int) =~= on_clicked@);
}

} // verus!
