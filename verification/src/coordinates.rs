use vstd::prelude::*;

verus! {

/// A widget's width and height, in cells.
#[derive(Debug, Clone, Copy, PartialEq, Eq)]
pub struct Size(pub (u16, u16));

/// A cell position: column, then row.
#[derive(Debug, Clone, Copy, PartialEq, Eq)]
pub struct Position(pub (u16, u16));

/// Where a widget sits on the screen and how much room it has.
#[derive(Debug, Clone, Copy, PartialEq, Eq)]
pub struct Coordinates {
    pub size: Size,
    pub position: Position,
}

impl Coordinates {
    pub open spec fn spec_xsize(&self) -> u16 {
        self.size.0.0
    }

    pub open spec fn spec_ysize(&self) -> u16 {
        self.size.0.1
    }

    pub open spec fn spec_xpos(&self) -> u16 {
        self.position.0.0
    }

    pub open spec fn spec_ypos(&self) -> u16 {
        self.position.0.1
    }

    pub fn new(xsize: u16, ysize: u16, xpos: u16, ypos: u16) -> (c: Coordinates)
        ensures
            c.spec_xsize() == xsize,
            c.spec_ysize() == ysize,
            c.spec_xpos() == xpos,
            c.spec_ypos() == ypos,
    {
        Coordinates { size: Size((xsize, ysize)), position: Position((xpos, ypos)) }
    }

    pub fn xsize(&self) -> (r: u16)
        ensures
            r == self.spec_xsize(),
    {
        self.size.0.0
    }

    pub fn ysize(&self) -> (r: u16)
        ensures
            r == self.spec_ysize(),
    {
        self.size.0.1
    }

    /// The top-left corner.
    pub fn top(&self) -> (p: Position)
        ensures
            p == self.position,
    {
        self.position
    }

    pub fn position(&self) -> (p: Position)
        ensures
            p == self.position,
    {
        self.position
    }

    pub fn u16position(&self) -> (p: (u16, u16))
        ensures
            p.0 == self.spec_xpos(),
            p.1 == self.spec_ypos(),
    {
        (self.position.0.0, self.position.0.1)
    }
}

impl Position {
    pub fn x(&self) -> (r: u16)
        ensures
            r == self.0.0,
    {
        self.0.0
    }

    pub fn y(&self) -> (r: u16)
        ensures
            r == self.0.1,
    {
        self.0.1
    }
}

} // verus!
