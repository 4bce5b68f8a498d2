use vstd::prelude::*;

verus! {

/// One of the six faces of an axis-aligned box, in the fixed order
/// `[+X, -X, +Y, -Y, +Z, -Z]`.
#[derive(Clone, Copy, Debug, PartialEq, Eq, Structural)]
pub enum Face {
    PosX,
    NegX,
    PosY,
    NegY,
    PosZ,
    NegZ,
}

/// What a face is for a block template: its top, its bottom or one of its sides.
#[derive(Clone, Copy, Debug, PartialEq, Eq, Structural)]
pub enum FaceRole {
    Top,
    Bottom,
    Side,
}

impl Face {
    /// Position of the face in the order `[+X, -X, +Y, -Y, +Z, -Z]`.
    pub open spec fn index(self) -> nat {
        match self {
            Face::PosX => 0,
            Face::NegX => 1,
            Face::PosY => 2,
            Face::NegY => 3,
            Face::PosZ => 4,
            Face::NegZ => 5,
        }
    }

    /// The axis the face is perpendicular to: 0 for X, 1 for Y, 2 for Z.
    pub open spec fn spec_axis(self) -> nat {
        self.index() / 2
    }

    /// Whether the outward normal points along the positive direction of its axis.
    pub open spec fn spec_is_positive(self) -> bool {
        self.index() % 2 == 0
    }

    pub fn idx(self) -> (r: usize)
        ensures
            r == self.index(),
    {
        match self {
            Face::PosX => 0,
            Face::NegX => 1,
            Face::PosY => 2,
            Face::NegY => 3,
            Face::PosZ => 4,
            Face::NegZ => 5,
        }
    }

    /// The face at position `i` of the order `[+X, -X, +Y, -Y, +Z, -Z]`.
    pub fn from_idx(i: usize) -> (r: Option<Face>)
        ensures
            r.is_some() <==> i < 6,
            r.is_some() ==> r.unwrap().index() == i,
    {
        match i {
            0 => Some(Face::PosX),
            1 => Some(Face::NegX),
            2 => Some(Face::PosY),
            3 => Some(Face::NegY),
            4 => Some(Face::PosZ),
            5 => Some(Face::NegZ),
            _ => None,
        }
    }

    pub fn axis(self) -> (r: usize)
        ensures
            r == self.spec_axis(),
            r < 3,
    {
        self.idx() / 2
    }

    pub fn is_positive(self) -> (r: bool)
        ensures
            r == self.spec_is_positive(),
    {
        self.idx() % 2 == 0
    }

    /// The face perpendicular to `axis` whose normal points along the given sign.
    pub fn from_axis(axis: usize, positive: bool) -> (r: Face)
        requires
            axis < 3,
        ensures
            r.spec_axis() == axis,
            r.spec_is_positive() == positive,
    {
        let i: usize = if positive { 2 * axis } else { 2 * axis + 1 };
        match Face::from_idx(i) {
            Some(f) => f,
            None => Face::PosX,
        }
    }

    /// The face through which a ray enters a box when the entry happens on
    /// `axis`: a ray travelling towards +axis enters through the negative
    /// face, any other ray through the positive one.
    pub fn entered_through(axis: usize, travels_positive: bool) -> (r: Face)
        requires
            axis < 3,
        ensures
            r.spec_axis() == axis,
            r.spec_is_positive() == !travels_positive,
    {
        Face::from_axis(axis, !travels_positive)
    }

    /// The outward unit normal of the face, as an integer triple.
    pub open spec fn spec_normal(self) -> Seq<int> {
        Seq::new(3, |k: int| if k == self.spec_axis() {
            if self.spec_is_positive() { 1int } else { -1int }
        } else {
            0int
        })
    }

    pub fn normal(self) -> (r: [i32; 3])
        ensures
            forall|k: int| 0 <= k < 3 ==> r@[k] == self.spec_normal()[k],
    {
        match self {
            Face::PosX => [1, 0, 0],
            Face::NegX => [-1, 0, 0],
            Face::PosY => [0, 1, 0],
            Face::NegY => [0, -1, 0],
            Face::PosZ => [0, 0, 1],
            Face::NegZ => [0, 0, -1],
        }
    }

    pub open spec fn spec_role(self) -> FaceRole {
        match self {
            Face::PosY => FaceRole::Top,
            Face::NegY => FaceRole::Bottom,
            _ => FaceRole::Side,
        }
    }

    /// `+Y` is the top, `-Y` the bottom, the four others are sides.
    pub fn role(self) -> (r: FaceRole)
        ensures
            r == self.spec_role(),
    {
        match self {
            Face::PosY => FaceRole::Top,
            Face::NegY => FaceRole::Bottom,
            _ => FaceRole::Side,
        }
    }

    /// All six faces, in index order.
    pub fn all() -> (r: [Face; 6])
        ensures
            forall|i: int| 0 <= i < 6 ==> (#[trigger] r@[i]).index() == i,
    {
        [Face::PosX, Face::NegX, Face::PosY, Face::NegY, Face::PosZ, Face::NegZ]
    }
}

} // verus!
