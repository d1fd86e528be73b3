//! A short tour of the language: bindings, structs and enums, methods and
//! traits, each with what it computes stated and checked.
use vstd::prelude::*;

verus! {

/// Integer bindings, arithmetic and a mutable binding.
pub fn numbers_and_variables() {
    let x: i32 = 1;
    let implicit_x: i32 = 1;
    let y: i32 = 2;
    let sum: i32 = x + y + 13;
    assert(sum == 16);
    let mut mutable: i32 = 1;
    assert(mutable + implicit_x == 2);
    mutable = 4;
    mutable += 2;
    assert(mutable == 6);
}

/// A point with two coordinates of one type.
pub struct Point<T> {
    pub x: T,
    pub y: T,
}

impl<T> Point<T> {
    /// The point `(x, y)`.
    pub fn new(x: T, y: T) -> (r: Point<T>)
        ensures
            r.x == x,
            r.y == y,
    {
        Point { x: x, y: y }
    }

    /// The first coordinate, taking the point.
    pub fn get_x(self) -> (r: T)
        ensures
            r == self.x,
    {
        self.x
    }
}

/// The four directions.
pub enum Direction {
    Left,
    Right,
    Up,
    Down,
}

/// An `i32`, or nothing.
pub enum OptionalI32 {
    AnI32(i32),
    Nothing,
}

/// A struct with one field of any type.
pub struct Foo<T> {
    pub bar: T,
}

/// A value of any type, or nothing: the shape of `Option`.
pub enum Optional<T> {
    SomeVal(T),
    NoVal,
}

/// Builds a struct, a plain enum and an enum with data.
pub fn structs_and_enums() {
    let origin: Point<i32> = Point { x: 0, y: 0 };
    assert(origin.x == 0 && origin.y == 0);
    let up = Direction::Up;
    assert(up is Up);
    let two: OptionalI32 = OptionalI32::AnI32(2);
    let nothing = OptionalI32::Nothing;
    assert(two matches OptionalI32::AnI32(2));
    assert(nothing is Nothing);
    let foo: Foo<u8> = Foo { bar: 7 };
    let some: Optional<u8> = Optional::SomeVal(foo.bar);
    assert(some matches Optional::SomeVal(7));
}

/// Methods on a generic struct.
pub fn methods() {
    let a_point: Point<u32> = Point { x: 1, y: 2 };
    let new_point = Point::new(2u32, 3u32);
    assert(new_point.x == 2 && new_point.y == 3);
    let x = a_point.get_x();
    assert(x == 1);
}

/// Something with a name that makes a noise.
pub trait Animal {
    fn name(&self) -> String;

    fn noise(&self) -> String;
}

/// A cat, hungry until fed.
pub struct Cat {
    pub name: String,
    pub is_hungry: bool,
}

impl Cat {
    /// A hungry cat with the given name.
    pub fn new(name: String) -> (r: Cat)
        ensures
            r.name@ == name@,
            r.is_hungry,
    {
        Cat { name: name, is_hungry: true }
    }

    /// Feeds the cat: it is no longer hungry.
    pub fn feed(&mut self)
        ensures
            !final(self).is_hungry,
            final(self).name@ == old(self).name@,
    {
        self.is_hungry = false
    }

    /// The noise the cat makes: `"Meow!"` when hungry, `"Prrrrr..."` when fed.
    pub fn sound(&self) -> (r: &'static str)
        ensures
            r@ == (if self.is_hungry { "Meow!"@ } else { "Prrrrr..."@ }),
    {
        if self.is_hungry {
            "Meow!"
        } else {
            "Prrrrr..."
        }
    }
}

impl Animal for Cat {
    fn name(&self) -> String {
        self.name.clone()
    }

    fn noise(&self) -> String {
        self.sound().to_owned()
    }
}

/// A trait implemented by a struct: a cat meows until it is fed, then purrs.
pub fn traits() {
    let mut roger = Cat::new("Roger".to_owned());
    let before = roger.sound();
    assert(before@ == "Meow!"@);
    roger.feed();
    let after = roger.sound();
    assert(after@ == "Prrrrr..."@);
    let _ = roger.noise();
}

} // verus!
