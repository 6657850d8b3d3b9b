//! Unicode box drawing characters, assembled from up to four line segments.
use crate::base::grapheme_cluster::GraphemeCluster;
use vstd::prelude::*;

verus! {

/// One of the four segments of a box drawing character.
#[derive(Copy, Clone, Debug, PartialEq, Eq, Structural)]
pub enum LineSegment {
    Up,
    Down,
    Right,
    Left,
}

impl LineSegment {
    /// The bit position of the segment's two-bit field within a cell.
    pub open spec fn spec_shift(self) -> u8 {
        match self {
            LineSegment::Up => 0,
            LineSegment::Down => 2,
            LineSegment::Right => 4,
            LineSegment::Left => 6,
        }
    }

    /// The lowest bit of the segment's field.
    fn to_u8(self) -> (r: u8)
        ensures
            r == (1u8 << self.spec_shift()),
            r == 1 || r == 4 || r == 16 || r == 64,
    {
        match self {
            LineSegment::Up => {
                assert((1u8 << 0u8) == 1u8) by (bit_vector);
                0b00000001
            },
            LineSegment::Down => {
                assert((1u8 << 2u8) == 4u8) by (bit_vector);
                0b00000100
            },
            LineSegment::Right => {
                assert((1u8 << 4u8) == 16u8) by (bit_vector);
                0b00010000
            },
            LineSegment::Left => {
                assert((1u8 << 6u8) == 64u8) by (bit_vector);
                0b01000000
            },
        }
    }
}

/// The type of a segment of a box drawing character.
#[derive(Copy, Clone, Debug, PartialEq, Eq, Structural)]
pub enum LineType {
    /// No line at all. (`None` would clash with `Option::None`.)
    NoLine,
    Thin,
    Thick,
}

impl LineType {
    /// The two-bit code of the line type.
    pub open spec fn spec_code(self) -> u8 {
        match self {
            LineType::NoLine => 0,
            LineType::Thin => 1,
            LineType::Thick => 2,
        }
    }

    fn to_u8(self) -> (r: u8)
        ensures
            r == self.spec_code(),
    {
        match self {
            LineType::NoLine => 0b00,
            LineType::Thin => 0b01,
            LineType::Thick => 0b10,
        }
    }
}

/// The two-bit field of `components` at `shift`.
pub open spec fn spec_field(components: u8, shift: u8) -> u8 {
    (components >> shift) & 3u8
}

/// A single box drawing character, built from four segments.
#[derive(Copy, Clone, Debug, PartialEq, Eq, Structural)]
pub struct LineCell {
    components: u8,
}

proof fn lemma_set_field(c: u8, seg: u8, ltype: u8, shift: u8, other: u8)
    requires
        shift == 0 || shift == 2 || shift == 4 || shift == 6,
        other == 0 || other == 2 || other == 4 || other == 6,
        seg == (1u8 << shift),
        ltype < 3,
    ensures
        spec_field((c & !((seg * 3u8) as u8)) | ((seg * ltype) as u8), shift) == ltype,
        other != shift ==> spec_field((c & !((seg * 3u8) as u8)) | ((seg * ltype) as u8), other) == spec_field(c, other),
{
    assert(spec_field((c & !((seg * 3u8) as u8)) | ((seg * ltype) as u8), shift) == ltype) by (bit_vector)
        requires
            shift == 0 || shift == 2 || shift == 4 || shift == 6,
            seg == (1u8 << shift),
            ltype < 3,
    ;
    assert(other != shift ==> spec_field((c & !((seg * 3u8) as u8)) | ((seg * ltype) as u8), other) == spec_field(c, other)) by (bit_vector)
        requires
            shift == 0 || shift == 2 || shift == 4 || shift == 6,
            other == 0 || other == 2 || other == 4 || other == 6,
            seg == (1u8 << shift),
            ltype < 3,
    ;
}

/// The box drawing character for each combination of segments, indexed by the cell's
/// components.
pub const CELL_TO_CHAR: [char; 256] = [
    ' ', '╵', '╹', '╳', '╷', '│', '╿', '╳',
    '╻', '╽', '┃', '╳', '╳', '╳', '╳', '╳',
    '╶', '└', '┖', '╳', '┌', '├', '┞', '╳',
    '┎', '┟', '┠', '╳', '╳', '╳', '╳', '╳',
    '╺', '┕', '┗', '╳', '┍', '┝', '┡', '╳',
    '┏', '┢', '┣', '╳', '╳', '╳', '╳', '╳',
    '╳', '╳', '╳', '╳', '╳', '╳', '╳', '╳',
    '╳', '╳', '╳', '╳', '╳', '╳', '╳', '╳',
    '╴', '┘', '┚', '╳', '┐', '┤', '┦', '╳',
    '┒', '┧', '┨', '╳', '╳', '╳', '╳', '╳',
    '─', '┴', '┸', '╳', '┬', '┼', '╀', '╳',
    '┰', '╁', '╂', '╳', '╳', '╳', '╳', '╳',
    '╼', '┶', '┺', '╳', '┮', '┾', '╄', '╳',
    '┲', '╆', '╊', '╳', '╳', '╳', '╳', '╳',
    '╳', '╳', '╳', '╳', '╳', '╳', '╳', '╳',
    '╳', '╳', '╳', '╳', '╳', '╳', '╳', '╳',
    '╸', '┙', '┛', '╳', '┑', '┥', '┩', '╳',
    '┓', '┪', '┫', '╳', '╳', '╳', '╳', '╳',
    '╾', '┵', '┹', '╳', '┭', '┽', '╃', '╳',
    '┱', '╅', '╉', '╳', '╳', '╳', '╳', '╳',
    '━', '┷', '┻', '╳', '┯', '┿', '╇', '╳',
    '┳', '╈', '╋', '╳', '╳', '╳', '╳', '╳',
    '╳', '╳', '╳', '╳', '╳', '╳', '╳', '╳',
    '╳', '╳', '╳', '╳', '╳', '╳', '╳', '╳',
    '╳', '╳', '╳', '╳', '╳', '╳', '╳', '╳',
    '╳', '╳', '╳', '╳', '╳', '╳', '╳', '╳',
    '╳', '╳', '╳', '╳', '╳', '╳', '╳', '╳',
    '╳', '╳', '╳', '╳', '╳', '╳', '╳', '╳',
    '╳', '╳', '╳', '╳', '╳', '╳', '╳', '╳',
    '╳', '╳', '╳', '╳', '╳', '╳', '╳', '╳',
    '╳', '╳', '╳', '╳', '╳', '╳', '╳', '╳',
    '╳', '╳', '╳', '╳', '╳', '╳', '╳', '╳',
];

impl LineCell {
    /// Create an empty cell (i.e., a space character); add segments using `set`.
    pub fn empty() -> (r: Self)
        ensures
            r.spec_components() == 0,
    {
        LineCell { components: 0 }
    }

    /// The raw components of the cell: four two-bit fields, one per segment.
    pub closed spec fn spec_components(self) -> u8 {
        self.components
    }

    /// The box drawing character of the cell (a space for an empty cell; combinations that have
    /// no character of their own are drawn as a cross).
    pub fn to_char(self) -> (c: char)
        ensures
            c == CELL_TO_CHAR@[self.spec_components() as int],
    {
        CELL_TO_CHAR[self.components as usize]
    }

    /// The box drawing character of the cell as a grapheme cluster (a single char always forms
    /// one).
    pub fn to_grapheme_cluster(self) -> (g: GraphemeCluster)
        ensures
            g@ == seq![CELL_TO_CHAR@[self.spec_components() as int]],
    {
        match GraphemeCluster::try_from(self.to_char()) {
            Ok(g) => g,
            Err(_) => GraphemeCluster::space(),
        }
    }

    /// Set one of the four segments of the cell to the given type; the others stay as they are.
    pub fn set(&mut self, segment: LineSegment, ltype: LineType) -> (r: &mut Self)
        ensures
            spec_field(r.spec_components(), segment.spec_shift()) == ltype.spec_code(),
            forall|s: LineSegment| s != segment ==> spec_field(r.spec_components(), #[trigger] s.spec_shift())
                == spec_field(old(self).spec_components(), s.spec_shift()),
            *final(self) == *final(r),
    {
        let seg = segment.to_u8();
        let lt = ltype.to_u8();
        let old_c = self.components;
        proof {
            assert(seg * 3 < 256 && seg * lt < 256) by (nonlinear_arith)
                requires
                    seg <= 64,
                    lt < 3,
            ;
        }
        let three = seg * 3;
        let val = seg * lt;
        let other_component_mask = !three;
        let new_c = (old_c & other_component_mask) | val;
        proof {
            assert(three == (seg * 3u8) as u8);
            assert(val == (seg * lt) as u8);
            assert(new_c == (old_c & !((seg * 3u8) as u8)) | ((seg * lt) as u8));
            assert forall|s: LineSegment| s != segment implies spec_field(new_c, #[trigger] s.spec_shift())
                == spec_field(old_c, s.spec_shift()) by {
                lemma_set_field(old_c, seg, lt, segment.spec_shift(), s.spec_shift());
            }
            lemma_set_field(old_c, seg, lt, segment.spec_shift(), 0);
        }
        self.components = new_c;
        self
    }
}

} // verus!
