//! Sizing policies for layout segments, and the axis and flex enums the
//! solver takes beside them.
use vstd::prelude::*;

verus! {

/// How one segment of a layout split claims space.
#[derive(Debug, Clone, Copy, PartialEq, Eq, Hash, Structural)]
pub enum Constraint {
    /// A fixed number of cells.
    Length(u16),
    /// A percentage (0..=100) of the area's main-axis extent.
    Percentage(u16),
    /// The fraction `numerator / denominator` of the area's main-axis
    /// extent.
    Ratio(u32, u32),
    /// At least this many cells.
    Min(u16),
    /// At most this many cells.
    Max(u16),
    /// A share of the space left over, proportional to the given weight.
    Fill(u16),
}

impl Constraint {
    /// What a constraint must satisfy to be solvable: a percentage no
    /// greater than 100 and a non-zero ratio denominator.
    pub open spec fn spec_is_valid(self) -> bool {
        match self {
            Constraint::Percentage(p) => p <= 100,
            Constraint::Ratio(_, den) => den >= 1,
            _ => true,
        }
    }

    /// Check [`Constraint::spec_is_valid`].
    pub fn is_valid(&self) -> (r: bool)
        ensures
            r == self.spec_is_valid(),
    {
        match self {
            Constraint::Percentage(p) => *p <= 100,
            Constraint::Ratio(_, den) => *den >= 1,
            _ => true,
        }
    }

    /// The priority class used when segments must shrink because space is
    /// short: lower classes give way first.
    pub open spec fn spec_shrink_class(self) -> int {
        match self {
            Constraint::Fill(_) => 0,
            Constraint::Max(_) => 1,
            Constraint::Min(_) => 2,
            Constraint::Percentage(_) => 3,
            Constraint::Ratio(_, _) => 3,
            Constraint::Length(_) => 4,
        }
    }

    /// Compute [`Constraint::spec_shrink_class`].
    pub fn shrink_class(&self) -> (r: u8)
        ensures
            r as int == self.spec_shrink_class(),
    {
        match self {
            Constraint::Fill(_) => 0,
            Constraint::Max(_) => 1,
            Constraint::Min(_) => 2,
            Constraint::Percentage(_) => 3,
            Constraint::Ratio(_, _) => 3,
            Constraint::Length(_) => 4,
        }
    }
}

/// Whether every constraint of the sequence is valid.
pub open spec fn all_valid(cs: Seq<Constraint>) -> bool {
    forall|i: int| 0 <= i < cs.len() ==> #[trigger] cs[i].spec_is_valid()
}

/// Check [`all_valid`] for a slice of constraints.
pub fn check_all_valid(cs: &Vec<Constraint>) -> (r: bool)
    ensures
        r == all_valid(cs@),
{
    let mut i: usize = 0;
    while i < cs.len()
        invariant
            i <= cs@.len(),
            forall|j: int| 0 <= j < i ==> #[trigger] cs@[j].spec_is_valid(),
        decreases cs@.len() - i,
    {
        if !cs[i].is_valid() {
            return false;
        }
        i = i + 1;
    }
    true
}

/// The direction along which an area is partitioned.
#[derive(Debug, Clone, Copy, PartialEq, Eq, Hash, Structural)]
pub enum Axis {
    /// Segments are laid out left to right and share the area's height.
    Horizontal,
    /// Segments are laid out top to bottom and share the area's width.
    Vertical,
}

/// What happens to main-axis space that the constraints leave over.
#[derive(Debug, Default, Clone, Copy, PartialEq, Eq, Hash, Structural)]
pub enum Flex {
    /// Segments pack against the leading edge; the slack trails.
    #[default]
    Start,
    /// Segments pack against the trailing edge; the slack leads.
    End,
    /// The slack is split evenly before and after the segments.
    Center,
    /// The slack widens the gaps between segments; the first and last
    /// segment stay flush with the edges.
    SpaceBetween,
    /// The slack is spread as half-gaps at the edges and full gaps
    /// between segments.
    SpaceAround,
    /// Every segment grows by an equal share of the slack, consuming it
    /// entirely.
    Legacy,
}

} // verus!
