//! The controller's buttons.

use vstd::prelude::*;

verus! {

/// Which buttons are held down.
#[derive(Clone, Copy, Debug, PartialEq, Eq, Structural)]
pub struct Controller {
    pub left: bool,
    pub down: bool,
    pub right: bool,
    pub up: bool,
    pub b: bool,
    pub a: bool,
    pub select: bool,
    pub start: bool,
}

impl View for Controller {
    type V = Seq<bool>;

    /// The buttons by index: 0 left, 1 down, 2 right, 3 up, 4 b, 5 a,
    /// 6 select, 7 start.
    open spec fn view(&self) -> Seq<bool> {
        seq![
            self.left,
            self.down,
            self.right,
            self.up,
            self.b,
            self.a,
            self.select,
            self.start,
        ]
    }
}

impl Controller {
    /// A controller with no button held down.
    pub fn new() -> (controller: Self)
        ensures
            controller@ == Seq::new(8, |i: int| false),
    {
        let controller = Controller {
            left: false,
            down: false,
            right: false,
            up: false,
            b: false,
            a: false,
            select: false,
            start: false,
        };
        assert(controller@ =~= Seq::new(8, |i: int| false));
        controller
    }

    /// Sets the button of `index`, which is at most 7, and no other.
    pub fn set_controller_value(&mut self, index: u32, value: bool)
        requires
            index <= 7,
        ensures
            final(self)@ == old(self)@.update(index as int, value),
    {
        match index {
            7 => self.start = value,
            6 => self.select = value,
            5 => self.a = value,
            4 => self.b = value,
            3 => self.up = value,
            2 => self.right = value,
            1 => self.down = value,
            _ => self.left = value,
        }
        assert(self@ =~= old(self)@.update(index as int, value));
    }
}

} // verus!
