use vstd::prelude::*;

verus! {

/// The keyboard actions that steer the player.
#[derive(Clone, Copy, Debug, PartialEq, Eq, Structural)]
pub enum Action {
    MoveLeft,
    MoveRight,
}

/// The direction the player is heading along the horizontal axis.
#[derive(Clone, Copy, Debug, PartialEq, Eq, Structural)]
pub enum MovementDirection {
    Left,
    Right,
    NotMoving,
}

impl MovementDirection {
    /// The horizontal unit component of the direction.
    pub open spec fn axis(self) -> int {
        match self {
            MovementDirection::Left => -1,
            MovementDirection::Right => 1,
            MovementDirection::NotMoving => 0,
        }
    }

    /// The direction of a horizontal component: its sign.
    pub open spec fn of_axis(a: int) -> MovementDirection {
        if a > 0 {
            MovementDirection::Right
        } else if a < 0 {
            MovementDirection::Left
        } else {
            MovementDirection::NotMoving
        }
    }

    /// The direction an action asks for.
    pub fn from_action(action: Action) -> (r: MovementDirection)
        ensures
            r == (match action {
                Action::MoveLeft => MovementDirection::Left,
                Action::MoveRight => MovementDirection::Right,
            }),
    {
        match action {
            Action::MoveLeft => MovementDirection::Left,
            Action::MoveRight => MovementDirection::Right,
        }
    }

    fn axis_of(self) -> (r: i8)
        ensures
            r == self.axis(),
    {
        match self {
            MovementDirection::Left => -1,
            MovementDirection::Right => 1,
            MovementDirection::NotMoving => 0,
        }
    }

    /// The overall direction when two directions are combined: the sign of
    /// the sum of their horizontal components.
    pub fn combine(self, rhs: MovementDirection) -> (r: MovementDirection)
        ensures
            r == MovementDirection::of_axis(self.axis() + rhs.axis()),
    {
        let sum: i8 = self.axis_of() + rhs.axis_of();
        if sum > 0 {
            MovementDirection::Right
        } else if sum < 0 {
            MovementDirection::Left
        } else {
            MovementDirection::NotMoving
        }
    }

    /// The opposite direction; standing still stays standing still.
    pub fn opposite(self) -> (r: MovementDirection)
        ensures
            r.axis() == -self.axis(),
    {
        match self {
            MovementDirection::Left => MovementDirection::Right,
            MovementDirection::Right => MovementDirection::Left,
            MovementDirection::NotMoving => MovementDirection::NotMoving,
        }
    }
}

impl core::ops::Add for MovementDirection {
    type Output = MovementDirection;

    fn add(self, rhs: MovementDirection) -> MovementDirection {
        self.combine(rhs)
    }
}

impl vstd::std_specs::ops::AddSpecImpl for MovementDirection {
    open spec fn obeys_add_spec() -> bool {
        true
    }

    open spec fn add_req(self, rhs: MovementDirection) -> bool {
        true
    }

    open spec fn add_spec(self, rhs: MovementDirection) -> MovementDirection {
        MovementDirection::of_axis(self.axis() + rhs.axis())
    }
}

impl core::ops::Not for MovementDirection {
    type Output = MovementDirection;

    fn not(self) -> MovementDirection {
        self.opposite()
    }
}

impl vstd::std_specs::ops::NotSpecImpl for MovementDirection {
    open spec fn obeys_not_spec() -> bool {
        true
    }

    open spec fn not_req(self) -> bool {
        true
    }

    open spec fn not_spec(self) -> MovementDirection {
        MovementDirection::of_axis(-self.axis())
    }
}

} // verus!
